use px4_param_audit::args::Args;
use px4_param_audit::audit::build_audit_rows;
use px4_param_audit::baseline::{build_recommendations, normalize_default_value, BaselineLayer};
use px4_param_audit::confirm::{integer_error_message, write_confirmation_matches};
use px4_param_audit::csource::collect_c_param_data;
use px4_param_audit::detail::{
    metadata_choices_line, metadata_current_line, row_has_metadata_choices,
};
use px4_param_audit::encoding::infer_param_encodings;
use px4_param_audit::ieee::Real32;
use px4_param_audit::model::{AuditRow, ParamChoice, ParamMetadata, Recommendation, WriteRequest};
use px4_param_audit::param::{
    decoded_sys_autostart, encode_param_set_value, format_param, MavParamType, ParamEncoding,
    ParamValue,
};
use px4_param_audit::plan::{build_write_plan, plan_error_message};
use px4_param_audit::serial::parse_serial_port_indexes;
use px4_param_audit::table::{TextMap, TextSet};
use px4_param_audit::tui::TuiApp;
use px4_param_audit::voxl::{
    derive_voxl_params_tree, extract_modalai_platform_code, voxl_version_status_line,
    LocalRepoVersion,
};
use px4_param_audit::voxl_stack::parse_voxl_params_text;
use px4_param_audit::yaml::{collect_yaml_param_data, yaml_from};

fn set(names: &[&str]) -> TextSet {
    let mut out = TextSet::new();
    for name in names {
        out.insert(name.to_string());
    }
    out
}

fn map(entries: &[(&str, &str)]) -> TextMap<String> {
    let mut out = TextMap::new();
    for (key, value) in entries {
        out.insert(key.to_string(), value.to_string());
    }
    out
}

fn single(value: f32) -> Real32 {
    Real32 {
        bits: value.to_bits(),
    }
}

fn one_param(name: &str, param: ParamValue) -> TextMap<ParamValue> {
    let mut out = TextMap::new();
    out.insert(name.to_string(), param);
    out
}

fn one_metadata(name: &str, metadata: ParamMetadata) -> TextMap<ParamMetadata> {
    let mut out = TextMap::new();
    out.insert(name.to_string(), metadata);
    out
}

fn one_recommendation(name: &str, value: &str, source: &str) -> TextMap<Recommendation> {
    let mut out = TextMap::new();
    out.insert(
        name.to_string(),
        Recommendation {
            value: value.into(),
            source: source.into(),
            fallback: false,
        },
    );
    out
}

fn choice(value: i64, label: &str) -> ParamChoice {
    ParamChoice {
        value,
        label: label.into(),
    }
}

fn test_row(name: &str, status: &str) -> AuditRow {
    AuditRow {
        name: name.into(),
        current: "1".into(),
        baseline: "0".into(),
        source: "firmware default".into(),
        status: status.into(),
        baseline_fallback: false,
        mav_type: MavParamType::Int32,
        metadata: None,
    }
}

fn write_diffs_args() -> Args {
    Args {
        connect: None,
        px4_source: None,
        voxl_ssh: None,
        voxl_adb: None,
        voxl_params_source: None,
        sys_autostart: None,
        param_timeout: 15,
        verbose: false,
        plain: false,
        write_diffs: true,
        yes: false,
        write_timeout: 3,
        list_ports: false,
    }
}

#[test]
fn parses_px4_serial_port_indexes() {
    let text = r#"
serial_ports = {
    "TEL1": {
        "label": "TELEM 1",
        "index": 101,
        },
    "GPS1": {
        "label": "GPS 1",
        "index": 201,
        },
}
"#;

    let indexes = parse_serial_port_indexes(text);

    assert_eq!(indexes.get("TEL1").map(String::as_str), Some("101"));
    assert_eq!(indexes.get("GPS1").map(String::as_str), Some("201"));
}

#[test]
fn normalizes_serial_label_defaults_only_for_serial_config_params() {
    let serial_config_params = set(&["GPS_1_CONFIG"]);
    let serial_port_indexes = map(&[("GPS1", "201")]);

    assert_eq!(
        normalize_default_value(
            "GPS_1_CONFIG",
            "GPS1".into(),
            &serial_config_params,
            &serial_port_indexes
        ),
        ("201".into(), Some("GPS1".into()))
    );
    assert_eq!(
        normalize_default_value(
            "SOME_OTHER_PARAM",
            "GPS1".into(),
            &serial_config_params,
            &serial_port_indexes
        ),
        ("GPS1".into(), None)
    );
}

#[test]
fn parses_px4_param_metadata_choices() {
    let text = r#"
parameters:
- group: EKF2
  definitions:
    EKF2_GPS_CTRL:
      description:
        short: GNSS sensor aiding
      type: bitmask
      bit:
        0: Lon/lat
        1: Altitude
        2: 3D velocity
        3: Dual antenna heading
      default: 7
      min: 0
      max: 15
    EKF2_GPS_MODE:
      type: enum
      values:
        0: Automatic
        1: Dead-reckoning
      default: 0
"#;
    let value = serde_yaml::from_str::<serde_yaml::Value>(text).expect("yaml");
    let yaml = yaml_from(&value);
    let wanted = set(&["EKF2_GPS_CTRL", "EKF2_GPS_MODE"]);
    let mut defaults = TextMap::new();
    let mut metadata = TextMap::new();
    let mut serial_config_params = TextSet::new();

    collect_yaml_param_data(
        &yaml,
        &wanted,
        &mut defaults,
        &mut metadata,
        &mut serial_config_params,
    );

    assert_eq!(defaults.get("EKF2_GPS_CTRL").map(String::as_str), Some("7"));
    let gps_ctrl = metadata.get("EKF2_GPS_CTRL").expect("metadata");
    assert_eq!(gps_ctrl.param_type.as_deref(), Some("bitmask"));
    assert_eq!(
        gps_ctrl.short_description.as_deref(),
        Some("GNSS sensor aiding")
    );
    assert_eq!(gps_ctrl.bits.len(), 4);
    assert_eq!(gps_ctrl.bits[3].label, "Dual antenna heading");
    let gps_mode = metadata.get("EKF2_GPS_MODE").expect("metadata");
    assert_eq!(gps_mode.values[1].label, "Dead-reckoning");
}

#[test]
fn formats_bitmask_detail_lines() {
    let row = AuditRow {
        name: "EKF2_GPS_CTRL".into(),
        current: "7".into(),
        baseline: "7".into(),
        source: "firmware default".into(),
        status: "match".into(),
        baseline_fallback: false,
        mav_type: MavParamType::Int32,
        metadata: Some(ParamMetadata {
            param_type: Some("bitmask".into()),
            bits: vec![
                choice(0, "Lon/lat"),
                choice(1, "Altitude"),
                choice(2, "3D velocity"),
                choice(3, "Dual antenna heading"),
            ],
            ..ParamMetadata::default()
        }),
    };

    let metadata = row.metadata.as_ref().expect("metadata");

    assert_eq!(
        metadata_current_line(&row, metadata).as_deref(),
        Some("Active bits for 7: 0=Lon/lat | 1=Altitude | 2=3D velocity")
    );
    assert_eq!(
        metadata_choices_line(metadata).as_deref(),
        Some("Bits: 0=Lon/lat | 1=Altitude | 2=3D velocity | 3=Dual antenna heading")
    );
}

#[test]
fn toggles_diff_only_view_with_search_filter() {
    let mut app = TuiApp::new(
        vec![
            test_row("EKF2_GPS_CTRL", "diff"),
            test_row("EKF2_REQ_EPH", "match"),
            test_row("GPS_1_CONFIG", "diff"),
        ],
        vec!["Baseline: test".into()],
        ParamEncoding::Bytewise,
    );

    assert_eq!(app.filtered.len(), 3);
    assert_eq!(app.view_label(), "all params");

    app.toggle_diffs_only();
    assert_eq!(app.view_label(), "diffs only");
    assert_eq!(app.filtered.len(), 2);
    assert_eq!(
        app.selected_row().map(|row| row.name.as_str()),
        Some("EKF2_GPS_CTRL")
    );

    app.query = "GPS".into();
    app.apply_filter();
    let filtered_names = app
        .filtered
        .iter()
        .map(|index| app.rows[*index].name.as_str())
        .collect::<Vec<_>>();
    assert_eq!(filtered_names, vec!["EKF2_GPS_CTRL", "GPS_1_CONFIG"]);

    app.toggle_diffs_only();
    assert_eq!(app.view_label(), "all params");
    let filtered_names = app
        .filtered
        .iter()
        .map(|index| app.rows[*index].name.as_str())
        .collect::<Vec<_>>();
    assert_eq!(filtered_names, vec!["EKF2_GPS_CTRL", "GPS_1_CONFIG"]);
}

#[test]
fn encodes_px4_int32_param_sets_bytewise() {
    let encoded = encode_param_set_value(
        single(7.0),
        MavParamType::Int32,
        ParamEncoding::Bytewise,
    )
    .expect("encode int32");

    assert_eq!(encoded.bits, 7);
    assert_ne!(encoded.bits, 7.0f32.to_bits());
}

#[test]
fn encodes_px4_int32_param_sets_ccast() {
    let encoded = encode_param_set_value(single(7.0), MavParamType::Int32, ParamEncoding::CCast)
        .expect("encode int32");

    assert_eq!(f32::from_bits(encoded.bits), 7.0);
}

#[test]
fn formats_px4_int32_param_values_for_selected_encoding() {
    let param = ParamValue {
        value: Real32 { bits: 7 },
        mav_type: MavParamType::Int32,
        encoding: ParamEncoding::Bytewise,
    };

    assert_eq!(format_param(&param), "7");

    let param = ParamValue {
        value: single(2047.0),
        mav_type: MavParamType::Int32,
        encoding: ParamEncoding::CCast,
    };

    assert_eq!(format_param(&param), "2047");
}

#[test]
fn infers_ccast_integer_encoding_from_px4_metadata_range() {
    let mut params = one_param(
        "EKF2_GPS_CHECK",
        ParamValue {
            value: single(2047.0),
            mav_type: MavParamType::Int32,
            encoding: ParamEncoding::CCast,
        },
    );
    let metadata = one_metadata(
        "EKF2_GPS_CHECK",
        ParamMetadata {
            min: Some("0".into()),
            max: Some("4095".into()),
            ..ParamMetadata::default()
        },
    );
    let recommendations = one_recommendation("EKF2_GPS_CHECK", "2047", "firmware default");

    infer_param_encodings(&mut params, &metadata, &recommendations, None);

    let param = params.get("EKF2_GPS_CHECK").expect("param");
    assert_eq!(param.encoding, ParamEncoding::CCast);
    assert_eq!(format_param(param), "2047");
}

#[test]
fn infers_bytewise_integer_encoding_from_px4_metadata_range() {
    let mut params = one_param(
        "EKF2_GPS_CHECK",
        ParamValue {
            value: Real32 { bits: 2047 },
            mav_type: MavParamType::Int32,
            encoding: ParamEncoding::CCast,
        },
    );
    let metadata = one_metadata(
        "EKF2_GPS_CHECK",
        ParamMetadata {
            min: Some("0".into()),
            max: Some("4095".into()),
            ..ParamMetadata::default()
        },
    );
    let recommendations = one_recommendation("EKF2_GPS_CHECK", "2047", "firmware default");

    infer_param_encodings(&mut params, &metadata, &recommendations, None);

    let param = params.get("EKF2_GPS_CHECK").expect("param");
    assert_eq!(param.encoding, ParamEncoding::Bytewise);
    assert_eq!(format_param(param), "2047");
}

#[test]
fn rejects_fractional_integer_writes() {
    let err = encode_param_set_value(single(7.5), MavParamType::Int32, ParamEncoding::CCast)
        .expect_err("fractional int write should fail");

    assert!(integer_error_message(&err, "7.5").contains("must be whole"));
}

#[test]
fn decodes_sys_autostart_after_bytewise_encoding_inference() {
    let mut params = one_param(
        "SYS_AUTOSTART",
        ParamValue {
            value: Real32 { bits: 4019 },
            mav_type: MavParamType::Int32,
            encoding: ParamEncoding::CCast,
        },
    );
    let metadata = one_metadata(
        "SYS_AUTOSTART",
        ParamMetadata {
            min: Some("0".into()),
            max: Some("999999".into()),
            ..ParamMetadata::default()
        },
    );
    let recommendations = one_recommendation("SYS_AUTOSTART", "4019", "airframe default");

    infer_param_encodings(&mut params, &metadata, &recommendations, None);

    assert_eq!(
        params.get("SYS_AUTOSTART").expect("param").encoding,
        ParamEncoding::Bytewise
    );
    assert_eq!(decoded_sys_autostart(&params), Some(4019));
}

#[test]
fn marks_qgc_style_fallback_recommendations() {
    let recommendations = build_recommendations(
        map(&[("EKF2_GPS_CTRL", "7")]),
        TextMap::new(),
        &[],
        &TextSet::new(),
        &TextMap::new(),
        Some("SYS_AUTOSTART=0 does not select an airframe"),
    );

    let rec = recommendations
        .get("EKF2_GPS_CTRL")
        .expect("recommendation");
    assert_eq!(rec.source, "QGC-style firmware default");
    assert!(rec.fallback);
}

#[test]
fn skips_fallback_baselines_for_default_writes() {
    let row = AuditRow {
        baseline_fallback: true,
        ..test_row("EKF2_GPS_CTRL", "diff")
    };
    let writes = build_write_plan(&write_diffs_args(), &[row], ParamEncoding::Bytewise)
        .expect_err("fallback baseline should not be writable");

    assert!(plan_error_message(writes, &[]).contains("no writable parameters selected"));
}

#[test]
fn default_writes_use_global_bytewise_encoding_for_integer_params() {
    let mut row = test_row("EKF2_OF_CTRL", "diff");
    row.current = "1065353216".into();
    row.baseline = "1".into();
    row.mav_type = MavParamType::Int32;

    let writes = build_write_plan(&write_diffs_args(), &[row], ParamEncoding::Bytewise)
        .expect("write plan");

    assert_eq!(writes[0].encoding, ParamEncoding::Bytewise);
    assert_eq!(
        encode_param_set_value(writes[0].value, writes[0].mav_type, writes[0].encoding)
            .expect("encoded")
            .bits,
        1
    );
}

#[test]
fn px4_metadata_supplies_integer_write_type_when_mavlink_reports_float() {
    let params = one_param(
        "EKF2_OF_CTRL",
        ParamValue {
            value: Real32 { bits: 1 },
            mav_type: MavParamType::Real32,
            encoding: ParamEncoding::CCast,
        },
    );
    let recommendations = one_recommendation("EKF2_OF_CTRL", "0", "firmware default");
    let metadata = one_metadata(
        "EKF2_OF_CTRL",
        ParamMetadata {
            param_type: Some("int32".into()),
            ..ParamMetadata::default()
        },
    );

    let rows = build_audit_rows(
        &params,
        &recommendations,
        &metadata,
        ParamEncoding::Bytewise,
    );

    assert_eq!(rows[0].current, "1");
    assert_eq!(rows[0].mav_type, MavParamType::Int32);
}

#[test]
fn write_confirmation_requires_matching_value() {
    let write = WriteRequest {
        name: "EKF2_OF_CTRL".into(),
        value: single(1.0),
        mav_type: MavParamType::Int32,
        encoding: ParamEncoding::Bytewise,
        source: "test".into(),
    };
    let stale = ParamValue {
        value: Real32 { bits: 0 },
        mav_type: MavParamType::Int32,
        encoding: ParamEncoding::Bytewise,
    };
    let confirmed = ParamValue {
        value: Real32 { bits: 1 },
        mav_type: MavParamType::Int32,
        encoding: ParamEncoding::Bytewise,
    };

    assert!(!write_confirmation_matches(&write, &stale));
    assert!(write_confirmation_matches(&write, &confirmed));
}

#[test]
fn parses_voxl_params_file_ignoring_commented_defaults() {
    let text = r#"
# 1 1 MC_PITCHRATE_D 0.0015 9
1 1 MC_PITCHRATE_D 0.0011 9
1 1 SYS_AUTOSTART 4001 6 # inline comment
"#;
    let wanted = set(&["MC_PITCHRATE_D", "SYS_AUTOSTART"]);
    let defaults = parse_voxl_params_text(text, &wanted);

    assert_eq!(
        defaults.get("MC_PITCHRATE_D").map(String::as_str),
        Some("0.0011")
    );
    assert_eq!(
        defaults.get("SYS_AUTOSTART").map(String::as_str),
        Some("4001")
    );
}

#[test]
fn derives_voxl_platform_baseline_from_starling_sku() {
    assert_eq!(
        extract_modalai_platform_code("MRB-D0012-4-V2-C29-T9-M1-X8").as_deref(),
        Some("D0012")
    );
    assert_eq!(
        derive_voxl_params_tree(Some("1.14.0-2.0.142"), &["v1.14".into(), "v1.18".into()])
            .as_deref()
            .expect("params tree"),
        "v1.14"
    );
}

#[test]
fn voxl_platform_layer_overrides_firmware_default() {
    let recommendations = build_recommendations(
        map(&[("MC_PITCHRATE_D", "0.003")]),
        TextMap::new(),
        &[BaselineLayer {
            defaults: map(&[("MC_PITCHRATE_D", "0.0011")]),
            source: "VOXL D0012 default (platforms/D0012_Starling_2_Max.params)".into(),
            fallback: false,
        }],
        &TextSet::new(),
        &TextMap::new(),
        None,
    );

    let rec = recommendations
        .get("MC_PITCHRATE_D")
        .expect("recommendation");
    assert_eq!(rec.value, "0.0011");
    assert_eq!(
        rec.source,
        "VOXL D0012 default (platforms/D0012_Starling_2_Max.params)"
    );
    assert!(!rec.fallback);
}

#[test]
fn voxl_platform_baseline_keeps_px4_bitmask_metadata() {
    let params = one_param(
        "EKF2_GPS_CTRL",
        ParamValue {
            value: single(7.0),
            mav_type: MavParamType::Int32,
            encoding: ParamEncoding::CCast,
        },
    );
    let recommendations = one_recommendation(
        "EKF2_GPS_CTRL",
        "7",
        "VOXL D0012 default (EKF2_helpers/vio_gps_baro.params)",
    );
    let metadata = one_metadata(
        "EKF2_GPS_CTRL",
        ParamMetadata {
            param_type: Some("bitmask".into()),
            bits: vec![choice(0, "Lon/lat"), choice(1, "Altitude")],
            ..ParamMetadata::default()
        },
    );

    let rows = build_audit_rows(
        &params,
        &recommendations,
        &metadata,
        ParamEncoding::Bytewise,
    );
    let row = rows.first().expect("row");

    assert!(row_has_metadata_choices(row));
    assert_eq!(
        metadata_choices_line(row.metadata.as_ref().expect("metadata")).as_deref(),
        Some("Bits: 0=Lon/lat | 1=Altitude")
    );
}

#[test]
fn parses_px4_c_param_bitmask_metadata() {
    let text = r#"
/**
 * Integer bitmask controlling GPS fusion.
 *
 * @group EKF2
 * @min 0
 * @max 15
 * @bit 0 Lon/lat
 * @bit 1 Altitude
 * @bit 2 3D velocity
 * @bit 3 Dual antenna heading
 */
PARAM_DEFINE_INT32(EKF2_GPS_CTRL, 7);
"#;
    let wanted = set(&["EKF2_GPS_CTRL"]);
    let mut defaults = TextMap::new();
    let mut metadata = TextMap::new();

    collect_c_param_data(text, &wanted, &mut defaults, &mut metadata);

    assert_eq!(defaults.get("EKF2_GPS_CTRL").map(String::as_str), Some("7"));
    let metadata = metadata.get("EKF2_GPS_CTRL").expect("metadata");
    assert_eq!(metadata.param_type.as_deref(), Some("bitmask"));
    assert_eq!(metadata.min.as_deref(), Some("0"));
    assert_eq!(metadata.max.as_deref(), Some("15"));
    assert_eq!(metadata.bits.len(), 4);
    assert_eq!(metadata.bits[3].label, "Dual antenna heading");
}

#[test]
fn reports_voxl_package_version_mismatch() {
    let local = LocalRepoVersion {
        version: "v0.9.16".into(),
        git: "f289135".into(),
    };

    let line = voxl_version_status_line("voxl-px4-params", Some("0.9.15"), Some(&local));

    assert!(line.contains("device=0.9.15"));
    assert!(line.contains("local=v0.9.16"));
    assert!(line.contains("status=mismatch"));
}
