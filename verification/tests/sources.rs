use px4_param_audit::airframe::{
    airframe_name, find_airframe_script, load_airframe_defaults, parse_airframe_script,
    resolve_px4_init_source,
};
use px4_param_audit::csource::{
    clean_c_comment_line, collect_c_param_data, normalize_c_default_value, parse_c_param_choice,
    parse_c_param_define, parse_c_param_metadata, parse_c_param_tag,
};
use px4_param_audit::detail::{
    compact_line, effective_mav_type, format_choice_list, metadata_choices_line,
    metadata_current_line, metadata_mav_type, metadata_summary_line,
};
use px4_param_audit::firmware::{load_firmware_defaults, source_extension, yaml_extension};
use px4_param_audit::model::{sort_choices, AuditRow, ParamChoice, ParamMetadata};
use px4_param_audit::param::MavParamType;
use px4_param_audit::source::{
    infer_voxl_wrapper_source, px4_source_status_line, resolve_px4_source,
    resolve_voxl_params_source, validate_px4_source, validate_voxl_params_source, Candidate,
};
use px4_param_audit::table::{sort_texts, TextMap, TextSet};
use px4_param_audit::yaml::{
    collect_yaml_text, parse_param_choices, read_yaml, untag, yaml_key_to_i64,
    yaml_scalar_to_string, Yaml,
};

fn set(names: &[&str]) -> TextSet {
    let mut out = TextSet::new();
    for name in names {
        out.insert(name.to_string());
    }
    out
}

fn map(entries: &[(&str, &str)]) -> TextMap<String> {
    let mut out = TextMap::new();
    for (key, value) in entries {
        out.insert(key.to_string(), value.to_string());
    }
    out
}

fn strings(texts: &[&str]) -> Vec<String> {
    texts.iter().map(|t| t.to_string()).collect()
}

fn choice(value: i64, label: &str) -> ParamChoice {
    ParamChoice {
        value,
        label: label.into(),
    }
}

#[test]
fn reads_macros() {
    let define = parse_c_param_define("\tPARAM_DEFINE_FLOAT( MC_ROLL_P , 6.5f );");
    assert_eq!(
        define,
        Some(("float".into(), "MC_ROLL_P".into(), "6.5".into()))
    );
    let define = parse_c_param_define("x PARAM_DEFINE_INT32(A, 1, 2) PARAM_DEFINE_INT32(B, 3)");
    assert_eq!(define, Some(("int32".into(), "A".into(), "1".into())));
    for line in [
        "",
        "PARAM_DEFINE_INT32",
        "PARAM_DEFINE_INT32(A",
        "PARAM_DEFINE_INT32(A)",
        "PARAM_DEFINE_INT32( , 1)",
        "param_define_int32(A, 1)",
    ] {
        assert_eq!(parse_c_param_define(line), None, "{line}");
    }
    assert_eq!(normalize_c_default_value(" 0.1Ff; "), "0.1");
    assert_eq!(normalize_c_default_value("1.fF"), "1.f");
    assert_eq!(clean_c_comment_line("  ** text * "), "text *");
}

#[test]
fn reads_tags() {
    let mut m = ParamMetadata::default();
    parse_c_param_tag("min -1.5", &mut m);
    parse_c_param_tag("max\t2", &mut m);
    parse_c_param_tag("unit  m/s ", &mut m);
    parse_c_param_tag("decimal 3", &mut m);
    parse_c_param_tag("reboot_required true", &mut m);
    parse_c_param_tag("bit 2 two words", &mut m);
    parse_c_param_tag("bit x", &mut m);
    parse_c_param_tag("value 7", &mut m);
    parse_c_param_tag("group EKF2", &mut m);
    parse_c_param_tag("category", &mut m);
    assert_eq!(m.min.as_deref(), Some("-1.5"));
    assert_eq!(m.max.as_deref(), Some("2"));
    assert_eq!(m.unit.as_deref(), Some("m/s"));
    assert_eq!(m.decimal.as_deref(), Some("3"));
    assert!(m.reboot_required);
    assert_eq!(m.bits.len(), 1);
    assert_eq!(m.bits[0].label, "two words");
    assert_eq!((m.values[0].value, m.values[0].label.as_str()), (7, ""));
    parse_c_param_tag("reboot_required false", &mut m);
    assert!(!m.reboot_required);
    assert!(parse_c_param_choice("").is_none());
    assert_eq!(parse_c_param_choice("+3 x").expect("choice").value, 3);
}

#[test]
fn reads_comments() {
    let m = parse_c_param_metadata(
        &strings(&[
            "",
            "First line",
            "second line",
            "",
            "Long text",
            "@value 2 two",
            "@value 1 one",
            "@value 2 again",
        ]),
        "int32",
    );
    assert_eq!(m.short_description.as_deref(), Some("First line second line"));
    assert_eq!(m.param_type.as_deref(), Some("enum"));
    let labels: Vec<&str> = m.values.iter().map(|c| c.label.as_str()).collect();
    assert_eq!(labels, vec!["one", "two", "again"]);
    let m = parse_c_param_metadata(&strings(&["@min 1", "behind a tag"]), "float");
    assert_eq!(m.short_description, None);
    assert_eq!(m.param_type.as_deref(), Some("float"));
}

#[test]
fn ties_comments_to_the_next_macro() {
    let text = "/** Short. */\nint x;\nPARAM_DEFINE_INT32(A, 1);\nPARAM_DEFINE_INT32(B, 2);\n/**\n * Open\n * @unit s */\nPARAM_DEFINE_FLOAT(C, 3.0f);\n/**\n * PARAM_DEFINE_INT32(D, 4);\n */\n";
    let wanted = set(&["A", "B", "C", "D"]);
    let mut defaults = TextMap::new();
    let mut metadata = TextMap::new();
    collect_c_param_data(text, &wanted, &mut defaults, &mut metadata);
    assert_eq!(defaults.get("A").map(String::as_str), Some("1"));
    assert_eq!(defaults.get("C").map(String::as_str), Some("3.0"));
    assert!(defaults.get("D").is_none());
    let short = |name: &str| {
        metadata
            .get(name)
            .expect("metadata")
            .short_description
            .clone()
    };
    assert_eq!(short("A").as_deref(), Some("Short. */"));
    assert_eq!(short("B"), None);
    assert_eq!(short("C").as_deref(), Some("Open"));
    assert_eq!(
        metadata.get("C").expect("metadata").unit.as_deref(),
        Some("s")
    );
    let mut defaults = TextMap::new();
    collect_c_param_data(text, &set(&["B"]), &mut defaults, &mut TextMap::new());
    assert_eq!(defaults.len(), 1);
}

#[test]
fn reads_documents() {
    let yaml = read_yaml("a: 1\nb: [x, 2.5, true, null]\n1: !tag y\nc: {d: e}\n").expect("yaml");
    let Yaml::Mapping { entries, debug } = &yaml else {
        panic!("no mapping");
    };
    assert_eq!(entries.len(), 4);
    assert_eq!(yaml_scalar_to_string(&entries[0].1), "1");
    assert_eq!(yaml_scalar_to_string(&entries[1].1), "x,2.5,true,Null");
    assert_eq!(yaml_key_to_i64(&entries[2].0), Some(1));
    assert_eq!(yaml_key_to_i64(&entries[0].0), None);
    assert!(matches!(untag(&entries[2].1), Yaml::Text(t) if t == "y"));
    assert_eq!(
        yaml_scalar_to_string(&entries[3].1),
        format!(
            "{:?}",
            serde_yaml::from_str::<serde_yaml::Value>("d: e").expect("value")
        )
    );
    assert!(debug.starts_with("Mapping {"));
    assert!(read_yaml("a: [").is_none());
    assert!(read_yaml("a: 1\na: 2\n").is_none());
    assert!(matches!(read_yaml(""), Some(Yaml::Null)));
}

#[test]
fn reads_choices_out_of_mappings() {
    let yaml = read_yaml("3: c\n'1': a\nx: no\n-2: b\n1.5: no\n").expect("yaml");
    let choices = parse_param_choices(Some(&yaml));
    let values: Vec<i64> = choices.iter().map(|c| c.value).collect();
    assert_eq!(values, vec![3, 1, -2]);
    let values: Vec<i64> = sort_choices(&choices).iter().map(|c| c.value).collect();
    assert_eq!(values, vec![-2, 1, 3]);
    assert!(parse_param_choices(None).is_empty());
    assert!(parse_param_choices(Some(&Yaml::Bool(true))).is_empty());
}

#[test]
fn collects_documents() {
    let text = "
serial_config:
- port_config_param:
    name: GPS_1_CONFIG
    default: GPS1
nested:
  deeper:
  - definitions:
      !odd B:
        default: [1, 2]
        type: int32
        reboot_required: true
        bitmask: {1: one, 0: zero}
      C: 5
      D:
        description: {short: dee}
        reboot_required: 1
";
    let wanted = set(&["GPS_1_CONFIG", "B", "C", "D"]);
    let mut defaults = TextMap::new();
    let mut metadata = TextMap::new();
    let mut serial = TextSet::new();
    collect_yaml_text(text, &wanted, &mut defaults, &mut metadata, &mut serial);
    assert!(serial.contains("GPS_1_CONFIG"));
    assert_eq!(
        defaults.get("GPS_1_CONFIG").map(String::as_str),
        Some("GPS1")
    );
    assert_eq!(defaults.get("B").map(String::as_str), Some("1,2"));
    let b = metadata.get("B").expect("metadata");
    assert!(b.reboot_required);
    assert_eq!(b.bits[0].label, "zero");
    assert!(metadata.get("C").is_none());
    let d = metadata.get("D").expect("metadata");
    assert!(!d.reboot_required);
    assert_eq!(d.short_description.as_deref(), Some("dee"));
    assert!(defaults.get("D").is_none());
    collect_yaml_text(": bad: [", &wanted, &mut defaults, &mut metadata, &mut serial);
    assert_eq!(defaults.len(), 2);
}

#[test]
fn documents_override_sources() {
    let firmware = load_firmware_defaults(
        &strings(&[
            "PARAM_DEFINE_INT32(A, 1);",
            "PARAM_DEFINE_INT32(A, 2);\nPARAM_DEFINE_INT32(B, 7);",
        ]),
        &strings(&["x: {definitions: {A: {default: 3}}}", "not: [yaml"]),
        &set(&["A", "B"]),
    );
    assert_eq!(firmware.defaults.get("A").map(String::as_str), Some("3"));
    assert_eq!(firmware.defaults.get("B").map(String::as_str), Some("7"));
    for extension in ["c", "cc", "cpp", "h", "hpp"] {
        assert!(source_extension(Some(extension)));
        assert!(!yaml_extension(Some(extension)));
    }
    assert!(yaml_extension(Some("yaml")) && yaml_extension(Some("yml")));
    assert!(!source_extension(None) && !yaml_extension(None));
    assert!(!source_extension(Some("txt")));
}

#[test]
fn runs_airframe_scripts() {
    let files = map(&[
        (
            "px4/ROMFS/px4fmu_common/init.d/airframes/4001_quad",
            "# @name Quad\nparam set-default A 1 # one\nparam set-default C 9\n. ${R}etc/init.d/rc.base\nparam set-default A 3\n. ${R}etc/init.d/.//rc.base\n. /other/rc\nparam set-default Z 1\n",
        ),
        (
            "px4/ROMFS/px4fmu_common/init.d/rc.base",
            "param set-default A 2\nparam set-default B 5\n. ${R}etc/init.d/airframes/4001_quad\n",
        ),
    ]);
    let wanted = set(&["A", "B", "C", "SYS_AUTOSTART"]);
    let script = "px4/ROMFS/px4fmu_common/init.d/airframes/4001_quad";
    let defaults =
        load_airframe_defaults(&files, "px4", Some(script), 4001, &wanted).expect("defaults");
    assert_eq!(defaults.get("A").map(String::as_str), Some("3"));
    assert_eq!(defaults.get("B").map(String::as_str), Some("5"));
    assert_eq!(defaults.get("C").map(String::as_str), Some("9"));
    assert_eq!(
        defaults.get("SYS_AUTOSTART").map(String::as_str),
        Some("4001")
    );
    assert_eq!(defaults.len(), 4);
    assert!(
        load_airframe_defaults(&files, "px4", None, 1, &wanted)
            .expect("defaults")
            .is_empty()
    );
    let missing = load_airframe_defaults(&TextMap::new(), "px4", Some("px4/1_x"), 1, &wanted);
    assert_eq!(missing.err().expect("missing").path, "px4/1_x");
    let mut visited = set(&["rc.base"]);
    let again =
        parse_airframe_script(&files, "px4", "rc.base", &wanted, &mut visited).expect("defaults");
    assert!(again.is_empty());
}

#[test]
fn script_paths_stay_as_written() {
    let wanted = set(&["A", "B"]);
    for (source, path) in [
        ("rc.x/", "px4/ROMFS/px4fmu_common/init.d/rc.x/"),
        ("rc.x/.", "px4/ROMFS/px4fmu_common/init.d/rc.x/."),
        ("./rc.x", "px4/ROMFS/px4fmu_common/init.d/./rc.x"),
        ("", "px4/ROMFS/px4fmu_common/init.d/"),
        ("/abs//rc.x", "/abs//rc.x"),
    ] {
        let first = format!(". ${{R}}etc/init.d/{source}\n");
        let mut files = map(&[
            ("start", first.as_str()),
            ("px4/ROMFS/px4fmu_common/init.d/rc.x", "param set-default A 1\n"),
        ]);
        let missing = load_airframe_defaults(&files, "px4", Some("start"), 1, &wanted);
        assert_eq!(missing.err().expect("missing").path, path);
        files.insert(path.to_string(), "param set-default B 2\n".to_string());
        let defaults =
            load_airframe_defaults(&files, "px4", Some("start"), 1, &wanted).expect("defaults");
        assert_eq!(defaults.get("A"), None);
        assert_eq!(defaults.get("B").map(String::as_str), Some("2"));
    }
}

#[test]
fn paths_are_told_apart_like_the_standard_ones() {
    let paths = [
        "a", "a/", "a/.", "./a", "././a", ".//a", "/a", "//a", "/./a", "a/b", "a//b", "a/./b",
        "a/../b", "b", "", ".", "./", "/", "/.", "..", "../", "a/..", "...", ".a", "a.",
    ];
    let wanted = set(&["P"]);
    for one in paths {
        for two in paths {
            let mut visited = set(&[]);
            let files = map(&[(one, ""), (two, "param set-default P 1\n")]);
            let _ = parse_airframe_script(&files, "px4", one, &wanted, &mut visited);
            let again = parse_airframe_script(&files, "px4", two, &wanted, &mut visited)
                .expect("defaults");
            let same = std::path::Path::new(one) == std::path::Path::new(two);
            assert_eq!(again.is_empty(), same, "{one} {two}");
        }
    }
}

#[test]
fn finds_airframes() {
    let names = strings(&["40010_x", "4001_quad", "4001_other", "400_y"]);
    assert_eq!(
        find_airframe_script(&names, 4001).as_deref(),
        Some("4001_quad")
    );
    assert_eq!(find_airframe_script(&names, 4002), None);
    assert_eq!(
        airframe_name("#!sh\n  # @name Holybro X500 V2 \n# @name No\n").as_deref(),
        Some("Holybro X500 V2")
    );
    assert_eq!(airframe_name("# @name\n"), None);
    assert_eq!(
        resolve_px4_init_source("px4", "${R}etc/init.d/rc.mc_defaults").as_deref(),
        Some("px4/ROMFS/px4fmu_common/init.d/rc.mc_defaults")
    );
    assert_eq!(
        resolve_px4_init_source("/px4/", "${R}etc/init.d/a/./b//c/").as_deref(),
        Some("/px4/ROMFS/px4fmu_common/init.d/a/./b//c/")
    );
    assert_eq!(
        resolve_px4_init_source("", "${R}etc/init.d/rc").as_deref(),
        Some("ROMFS/px4fmu_common/init.d/rc")
    );
    assert_eq!(
        resolve_px4_init_source("px4", "${R}etc/init.d//a/./b").as_deref(),
        Some("/a/./b")
    );
    assert_eq!(resolve_px4_init_source("px4", "/etc/init.d/rc"), None);
}

#[test]
fn knows_types_by_their_names() {
    let typed = |name: &str| ParamMetadata {
        param_type: Some(name.into()),
        ..ParamMetadata::default()
    };
    for (name, expected) in [
        ("uint8", Some(MavParamType::Uint8)),
        ("INT8", Some(MavParamType::Int8)),
        ("uint16", Some(MavParamType::Uint16)),
        ("int16", Some(MavParamType::Int16)),
        ("uint32", Some(MavParamType::Uint32)),
        (" param_type_int32 ", Some(MavParamType::Int32)),
        ("MAV_PARAM_TYPE_INT32", Some(MavParamType::Int32)),
        ("enum", Some(MavParamType::Int32)),
        ("bitmask", Some(MavParamType::Int32)),
        ("boolean", Some(MavParamType::Int32)),
        ("bool", Some(MavParamType::Int32)),
        ("float", Some(MavParamType::Real32)),
        ("real32", Some(MavParamType::Real32)),
        ("string", None),
    ] {
        assert_eq!(metadata_mav_type(&typed(name)), expected, "{name}");
    }
    assert_eq!(metadata_mav_type(&ParamMetadata::default()), None);
    let float = typed("float");
    assert_eq!(
        effective_mav_type(MavParamType::Int32, Some(&float)),
        MavParamType::Int32
    );
    assert_eq!(
        effective_mav_type(MavParamType::Real32, Some(&float)),
        MavParamType::Real32
    );
    assert_eq!(
        effective_mav_type(MavParamType::Uint8, Some(&typed("int32"))),
        MavParamType::Int32
    );
    assert_eq!(
        effective_mav_type(MavParamType::Uint8, None),
        MavParamType::Uint8
    );
}

#[test]
fn words_metadata() {
    let mut m = ParamMetadata::default();
    assert_eq!(metadata_summary_line(&m), None);
    assert_eq!(metadata_choices_line(&m), None);
    m.min = Some("1".into());
    assert_eq!(
        metadata_summary_line(&m).as_deref(),
        Some("PX4 metadata: min 1")
    );
    m.min = None;
    m.max = Some("2".into());
    assert_eq!(
        metadata_summary_line(&m).as_deref(),
        Some("PX4 metadata: max 2")
    );
    m.param_type = Some("boolean".into());
    assert_eq!(
        metadata_choices_line(&m).as_deref(),
        Some("Values: 0=Disabled | 1=Enabled")
    );
    let mut row = AuditRow {
        name: "A".into(),
        current: "2".into(),
        baseline: "1".into(),
        source: "s".into(),
        status: "diff".into(),
        baseline_fallback: false,
        mav_type: MavParamType::Int32,
        metadata: None,
    };
    assert_eq!(
        metadata_current_line(&row, &m).as_deref(),
        Some("Current meaning: 2 = Enabled")
    );
    m.values = vec![choice(1, "one"), choice(2, "two"), choice(2, "again")];
    assert_eq!(
        metadata_current_line(&row, &m).as_deref(),
        Some("Current meaning: 2 = two")
    );
    row.current = "9".into();
    assert_eq!(
        metadata_current_line(&row, &m).as_deref(),
        Some("Current meaning: 9 = unlisted value")
    );
    m.bits = vec![choice(5, "five")];
    assert_eq!(
        metadata_current_line(&row, &m).as_deref(),
        Some("Active bits for 9: none")
    );
    row.current = "x".into();
    assert_eq!(metadata_current_line(&row, &m), None);
    assert_eq!(format_choice_list(&m.values, 9), "1=one ...");
    assert_eq!(compact_line("abcdef", 6), "abcdef");
    assert_eq!(compact_line("abcdef", 5), "ab...");
    assert_eq!(compact_line("abcdef", 2), "...");
}

fn place(path: &str, exists: bool) -> Candidate {
    Candidate {
        path: path.into(),
        exists,
    }
}

#[test]
fn finds_sources() {
    let voxl = [place("v1", false), place("v2", true)];
    let usual = [place("u1", true), place("u2", true)];
    let none = [place("n", false)];
    assert_eq!(
        resolve_px4_source(Some("asked"), true, &voxl, Some("env"), &usual).as_deref(),
        Some("asked")
    );
    assert_eq!(
        resolve_px4_source(None, true, &voxl, Some("env"), &usual).as_deref(),
        Some("v2")
    );
    assert_eq!(
        resolve_px4_source(None, true, &none, Some("env"), &usual).as_deref(),
        Some("env")
    );
    assert_eq!(
        resolve_px4_source(None, false, &voxl, None, &usual).as_deref(),
        Some("u1")
    );
    assert_eq!(resolve_px4_source(None, false, &voxl, None, &none), None);
    assert_eq!(
        resolve_voxl_params_source(None, &voxl).as_deref(),
        Some("v2")
    );
    assert_eq!(
        resolve_voxl_params_source(Some("x"), &voxl).as_deref(),
        Some("x")
    );
    assert_eq!(resolve_voxl_params_source(None, &none), None);
    assert_eq!(validate_px4_source("p", true, true).expect("source"), "p");
    assert_eq!(
        validate_px4_source("p", true, false)
            .expect_err("no source")
            .message,
        "p does not look like a PX4-Autopilot checkout"
    );
    assert_eq!(
        validate_voxl_params_source("q", false)
            .expect_err("no source")
            .message,
        "q does not look like a voxl-px4-params checkout"
    );
    assert!(validate_voxl_params_source("q", true).is_ok());
    assert_eq!(
        infer_voxl_wrapper_source(
            Some("px4-firmware"),
            Some(place("w", true)),
            place("u", true)
        )
        .as_deref(),
        Some("w")
    );
    assert_eq!(
        infer_voxl_wrapper_source(
            Some("px4-firmware"),
            Some(place("w", false)),
            place("u", true)
        )
        .as_deref(),
        Some("u")
    );
    assert_eq!(
        infer_voxl_wrapper_source(Some("px4-firmware"), None, place("u", true)),
        None
    );
    assert_eq!(
        infer_voxl_wrapper_source(Some("x"), Some(place("w", true)), place("u", false)),
        None
    );
    assert_eq!(
        px4_source_status_line("vendor/PX4", Some("abc")),
        "PX4 baseline source: vendor/PX4 git=abc"
    );
    assert_eq!(
        px4_source_status_line("p", None),
        "PX4 baseline source: p git=unknown"
    );
}

#[test]
fn keeps_tables_in_order() {
    let mut table = TextMap::new();
    for key in ["b", "a", "\u{10000}", "\u{ffff}", "aa", "", "b"] {
        table.insert(key.to_string(), key.len().to_string());
    }
    let keys: Vec<&str> = (0..table.len()).map(|i| table.key_at(i).as_str()).collect();
    let mut expected = vec!["", "a", "aa", "b", "\u{ffff}", "\u{10000}"];
    expected.sort();
    assert_eq!(keys, expected);
    assert!(table.contains_key("aa") && !table.contains_key("ab"));
    let texts = strings(&["b", "a", "c", "a"]);
    assert_eq!(sort_texts(&texts), strings(&["a", "a", "b", "c"]));
}
