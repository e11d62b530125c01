use px4_param_audit::args::Args;
use px4_param_audit::connect::{
    open_transport, parse_serial_connection, Connection, ConnectionError,
};
use px4_param_audit::discovery::{
    complete_discovery, discover_voxl_baseline, discovery_outcome, discovery_transport,
    print_voxl_discovery_result, print_voxl_discovery_start, run_voxl_discovery,
    voxl_status_lines, DiscoveryError, ParamFile,
};
use px4_param_audit::output::{write_output_block, write_output_line, write_output_text};
use px4_param_audit::serial::{
    default_connection, discover_px4_serial_port, fallback_serial_paths, parse_serial_port_indexes,
    print_serial_ports, score_port_name, score_serial_port, score_usb_info, PortInfo, PortKind,
    UsbInfo,
};
use px4_param_audit::source::Candidate;
use px4_param_audit::table::TextSet;
use px4_param_audit::voxl::{
    choose_local_version, derive_voxl_params_tree, extract_modalai_platform_code, git_output,
    local_repo_version, normalize_version, parse_key_value_lines, versions_match,
    voxl_version_status_line, LocalRepoVersion, NoTrees,
};
use px4_param_audit::voxl_stack::{
    find_voxl_platform_file, load_voxl_param_layers, parse_voxl_params_text,
    resolve_voxl_param_stack, voxl_param_stack_label, NoMatchingDefaults, ReportedFile, StackError,
    StackText,
};

fn strings(texts: &[&str]) -> Vec<String> {
    texts.iter().map(|t| t.to_string()).collect()
}

#[test]
fn reads_fields() {
    let fields = parse_key_value_lines(
        "hostname = m0054\r\nparam_tree=v1.14\nparam_tree=v1.18\nempty=\nno field\nsku=A=B\n",
    );
    assert_eq!(fields.get("hostname").map(String::as_str), Some("m0054"));
    assert_eq!(
        fields.get("param_tree").map(String::as_str),
        Some("v1.14,v1.18")
    );
    assert_eq!(fields.get("sku").map(String::as_str), Some("A=B"));
    assert!(fields.get("empty").is_none());
    assert_eq!(fields.len(), 3);
}

#[test]
fn finds_platform_codes() {
    assert_eq!(
        extract_modalai_platform_code("D12D00123").as_deref(),
        Some("D0012")
    );
    assert_eq!(extract_modalai_platform_code("D001"), None);
    assert_eq!(extract_modalai_platform_code("\u{e4}D001x"), None);
    assert_eq!(
        extract_modalai_platform_code("\u{e4}D0019").as_deref(),
        Some("D0019")
    );
}

#[test]
fn derives_trees() {
    let trees = strings(&["v1.18", "v1.14", "v1.9"]);
    assert_eq!(
        derive_voxl_params_tree(Some("1.18.2"), &trees).expect("tree"),
        "v1.18"
    );
    assert_eq!(
        derive_voxl_params_tree(Some("1.20.2"), &trees).expect("tree"),
        "v1.9"
    );
    assert_eq!(
        derive_voxl_params_tree(Some("x.y"), &trees).expect("tree"),
        "v1.9"
    );
    assert_eq!(derive_voxl_params_tree(None, &trees).expect("tree"), "v1.9");
    assert_eq!(
        derive_voxl_params_tree(Some("1.20"), &[]).expect("tree"),
        "v1.20"
    );
    assert_eq!(derive_voxl_params_tree(Some("1"), &[]), Err(NoTrees));
    assert_eq!(derive_voxl_params_tree(None, &[]), Err(NoTrees));
}

#[test]
fn compares_versions() {
    assert_eq!(normalize_version(" v1.2 "), "1.2");
    assert!(versions_match(Some("1.2"), Some("v1.2")));
    assert!(!versions_match(Some("1.2"), Some("1.3")));
    assert!(!versions_match(None, Some("1.3")));
    let tags = strings(&["x", "v1", "v2"]);
    assert_eq!(choose_local_version(&tags, Some("2")).as_deref(), Some("v2"));
    assert_eq!(choose_local_version(&tags, Some("3")).as_deref(), Some("v1"));
    assert_eq!(
        choose_local_version(&tags[..1], None).as_deref(),
        Some("x")
    );
    assert_eq!(choose_local_version(&[], Some("3")), None);
    let version = local_repo_version(Some("abc"), Some("a\nv9\n"), Some("d"), None).expect("repo");
    assert_eq!((version.version.as_str(), version.git.as_str()), ("v9", "abc"));
    let version = local_repo_version(Some("abc"), None, Some("d"), None).expect("repo");
    assert_eq!(version.version, "d");
    let version = local_repo_version(Some("abc"), None, None, None).expect("repo");
    assert_eq!(version.version, "abc");
    assert!(local_repo_version(None, Some("v9"), None, None).is_none());
    assert_eq!(git_output(true, " abc\n").as_deref(), Some("abc"));
    assert_eq!(git_output(false, "abc"), None);
    assert_eq!(git_output(true, " \n"), None);
    assert_eq!(
        voxl_version_status_line("p", None, None),
        "p: status=unknown device=unknown local=unknown git=unknown"
    );
    let local = LocalRepoVersion {
        version: "v1".into(),
        git: "abc".into(),
    };
    assert_eq!(
        voxl_version_status_line("p", Some("1"), Some(&local)),
        "p: status=match device=1 local=v1 git=abc"
    );
}

fn voxl_args(ssh: Option<&str>, adb: Option<Option<&str>>) -> Args {
    Args {
        voxl_ssh: ssh.map(String::from),
        voxl_adb: adb.map(|serial| serial.map(String::from)),
        ..Args::default()
    }
}

#[test]
fn reads_reports() {
    let args = voxl_args(Some("root@1.2.3.4"), None);
    assert!(args.voxl_requested());
    assert!(!Args::default().voxl_requested());
    let text = "hostname=m0054\nsku=MRB-D0012-4\nvoxl_px4=1.14.0-2.0\nvoxl_px4_params=0.9.15\nparam_tree=v1.14\nparam_tree= v1.18\nplatform_key=MRB-D0012\nparam_file=a.params\nparam_file=b.params\n";
    let report = discover_voxl_baseline(&args, Some(text))
        .expect("report")
        .expect("report");
    assert_eq!(report.platform_code, "D0012");
    assert_eq!(report.params_tree, "v1.14");
    assert_eq!(report.param_files, strings(&["a.params", "b.params"]));
    assert!(
        discover_voxl_baseline(&args, None)
            .expect("report")
            .is_none()
    );
    let both = voxl_args(Some("x"), Some(None));
    assert!(matches!(
        discover_voxl_baseline(&both, None),
        Err(DiscoveryError::BothTransports)
    ));
    assert!(matches!(
        discover_voxl_baseline(&args, Some("hostname=x")),
        Err(DiscoveryError::NoSku)
    ));
    assert!(matches!(
        discover_voxl_baseline(&args, Some("sku=MRB")),
        Err(DiscoveryError::NoPlatformCode { sku }) if sku == "MRB"
    ));
    assert!(matches!(
        discover_voxl_baseline(&args, Some("sku=D0012")),
        Err(DiscoveryError::NoTrees)
    ));
    let file = |name: &str| ParamFile {
        path: format!("/tree/{name}"),
        name: Some(name.into()),
    };
    let discovery = complete_discovery(
        "ssh:x".into(),
        report,
        "/source".into(),
        vec![file("VOXL.params"), file("D0012_Max.params")],
        None,
        None,
    );
    assert_eq!(discovery.platform_file.path, "/tree/D0012_Max.params");
    assert_eq!(
        voxl_status_lines(Some(&discovery)),
        vec![
            "VOXL: ssh:x host=m0054 sku=MRB-D0012-4 platform=D0012 key=MRB-D0012 tree=v1.14",
            "VOXL params: 2 file(s); platform source=D0012_Max.params",
            "voxl-px4: status=unknown device=1.14.0-2.0 local=unknown git=unknown",
            "voxl-px4-params: status=unknown device=0.9.15 local=unknown git=unknown",
        ]
    );
    let mut out = String::new();
    print_voxl_discovery_result(Some(&discovery), &mut out);
    assert_eq!(
        out,
        "VOXL discovery: found hostname=m0054 sku=MRB-D0012-4 platform=D0012 params_tree=v1.14 stack_files=2 platform_file=/tree/D0012_Max.params\n"
    );
    assert_eq!(
        voxl_status_lines(None),
        vec!["VOXL discovery: disabled; using generic PX4 baseline sources"]
    );
    let mut out = String::new();
    print_voxl_discovery_result(None, &mut out);
    assert_eq!(out, "");
}

#[test]
fn announces_discoveries() {
    for (args, line, transport) in [
        (
            voxl_args(Some("a@b"), None),
            "VOXL discovery: probing ssh:a@b\n",
            Some("ssh:a@b"),
        ),
        (
            voxl_args(None, Some(Some("123"))),
            "VOXL discovery: probing adb:123\n",
            Some("adb:123"),
        ),
        (
            voxl_args(None, Some(Some(""))),
            "VOXL discovery: probing adb\n",
            Some("adb"),
        ),
        (
            voxl_args(None, Some(None)),
            "VOXL discovery: probing adb\n",
            Some("adb"),
        ),
        (
            voxl_args(None, None),
            "VOXL discovery: disabled (generic PX4 baseline mode)\n",
            None,
        ),
        (voxl_args(Some("a"), Some(None)), "", Some("ssh:a")),
    ] {
        let mut out = String::new();
        print_voxl_discovery_start(&args, &mut out);
        assert_eq!(out, line);
        assert_eq!(discovery_transport(&args).as_deref(), transport);
    }
}

#[test]
fn runs_the_discovery_script() {
    let ssh = voxl_args(Some("voxl"), None);
    let command = run_voxl_discovery(&ssh, "script").expect("command");
    assert_eq!(command.program, "ssh");
    assert_eq!(
        command.arguments,
        strings(&["-o", "BatchMode=yes", "-o", "ConnectTimeout=8", "voxl", "script"])
    );
    let adb = voxl_args(None, Some(Some("123")));
    let command = run_voxl_discovery(&adb, "script").expect("command");
    assert_eq!(command.program, "adb");
    assert_eq!(command.arguments, strings(&["-s", "123", "shell", "script"]));
    for serial in [None, Some("")] {
        let command =
            run_voxl_discovery(&voxl_args(None, Some(serial)), "script").expect("command");
        assert_eq!(command.program, "adb");
        assert_eq!(command.arguments, strings(&["shell", "script"]));
    }
    assert!(run_voxl_discovery(&voxl_args(None, None), "script").is_none());

    assert_eq!(
        discovery_outcome(&ssh, true, "sku=1\n".into(), "noise"),
        Ok("sku=1\n".into())
    );
    assert_eq!(
        discovery_outcome(&ssh, false, "sku=1\n".into(), " no route\n"),
        Err("VOXL SSH discovery failed for voxl: no route".into())
    );
    assert_eq!(
        discovery_outcome(&adb, false, String::new(), "no device\n"),
        Err("VOXL ADB discovery failed: no device".into())
    );
}

#[test]
fn stacks_parameter_files() {
    let names = strings(&[
        "D0012_Max.params",
        "D0012.txt",
        "D0011_x.params",
        ".params",
        "D0013_b.params",
        "D0013_a.params",
    ]);
    assert_eq!(
        find_voxl_platform_file(Some(&names), "D0012").expect("file"),
        "D0012_Max.params"
    );
    assert!(matches!(
        find_voxl_platform_file(None, "D0012"),
        Err(StackError::NoTree)
    ));
    assert!(matches!(
        find_voxl_platform_file(Some(&names), "D9999"),
        Err(StackError::NoPlatformFile)
    ));
    match find_voxl_platform_file(Some(&names), "D0013") {
        Err(StackError::Ambiguous { names }) => {
            assert_eq!(names, strings(&["D0013_a.params", "D0013_b.params"]))
        }
        other => panic!("{other:?}"),
    }
    let reported = |present: bool| {
        [
            ReportedFile {
                relative: "a".into(),
                present: true,
            },
            ReportedFile {
                relative: "b".into(),
                present,
            },
        ]
    };
    assert_eq!(
        resolve_voxl_param_stack(&reported(true), None, "D0012").expect("stack"),
        strings(&["a", "b"])
    );
    assert!(matches!(
        resolve_voxl_param_stack(&reported(false), None, "D0012"),
        Err(StackError::Missing { index: 1 })
    ));
    assert_eq!(
        resolve_voxl_param_stack(&[], Some(&names), "D0012").expect("stack"),
        strings(&["platforms/D0012_Max.params"])
    );
}

#[test]
fn layers_parameter_files() {
    let mut wanted = TextSet::new();
    wanted.insert("A".into());
    let file = |label: &str, text: &str| StackText {
        label: label.into(),
        text: text.into(),
    };
    let layers = load_voxl_param_layers(
        "D0012",
        &[
            file("one", "1 1 A 5 6"),
            file("two", "1 1 B 5 6"),
            file("three", "1 1 A 7 6\n1 1 A 8"),
        ],
        &wanted,
    )
    .unwrap_or_default();
    assert_eq!(layers.len(), 2);
    assert_eq!(layers[1].source, "VOXL D0012 default (three)");
    assert_eq!(layers[1].defaults.get("A").map(String::as_str), Some("7"));
    assert!(!layers[0].fallback);
    assert_eq!(
        load_voxl_param_layers("D0012", &[file("two", "1 1 B 5 6")], &wanted).err(),
        Some(NoMatchingDefaults)
    );
    assert!(parse_voxl_params_text("1 1 A 5", &wanted).is_empty());
    assert_eq!(
        voxl_param_stack_label(Some("platforms/x.params"), Some("x.params")),
        "platforms/x.params"
    );
    assert_eq!(voxl_param_stack_label(None, Some("x.params")), "x.params");
    assert_eq!(voxl_param_stack_label(None, None), "unknown");
}

fn usb(vid: u16, manufacturer: Option<&str>, product: Option<&str>) -> UsbInfo {
    UsbInfo {
        vid,
        pid: 0x2a,
        manufacturer: manufacturer.map(String::from),
        product: product.map(String::from),
        serial_number: None,
    }
}

fn port(name: &str, kind: PortKind) -> PortInfo {
    PortInfo {
        port_name: name.into(),
        kind,
    }
}

fn other() -> PortKind {
    PortKind::Other("Unknown".into())
}

#[test]
fn scores_ports() {
    for (name, score) in [
        ("/dev/cu.usbmodem01", 320),
        ("/dev/tty.USBMODEM01", 300),
        ("/dev/ttyACM0", 250),
        ("/dev/serial/by-id/usb-x", 220),
        ("/dev/ttyUSB0", 100),
        ("/dev/cu.usbserial-1", 120),
        ("/dev/cu.Bluetooth", 0),
        ("\u{c4}/dev/ttyACM0", 250),
    ] {
        assert_eq!(score_port_name(name), score, "{name}");
    }
    assert_eq!(score_usb_info(&usb(12677, None, None)), 800);
    assert_eq!(score_usb_info(&usb(1, Some("Auterion"), None)), 1000);
    assert_eq!(
        score_usb_info(&usb(12677, Some("Holybro"), Some("PX4 FMU v6"))),
        1800
    );
    assert_eq!(score_usb_info(&usb(1, Some("p"), Some("x4"))), 0);
    assert_eq!(
        score_serial_port(&port(
            "/dev/ttyACM0",
            PortKind::Usb(usb(1, None, Some("Pixhawk")))
        )),
        1250
    );
}

#[test]
fn picks_ports() {
    let ports = [
        port("/dev/ttyS0", other()),
        port("/dev/ttyACM1", other()),
        port("/dev/ttyACM0", other()),
        port("/dev/ttyUSB0", other()),
    ];
    assert_eq!(
        discover_px4_serial_port(&ports).as_deref(),
        Some("/dev/ttyACM0")
    );
    assert_eq!(discover_px4_serial_port(&ports[..1]), None);
    let paths = fallback_serial_paths(&strings(&["/dev/serial/by-id/b", "/dev/serial/by-id/a"]));
    assert_eq!(paths[0], "/dev/cu.usbmodem01");
    assert_eq!(paths[5], "/dev/ttyUSB1");
    assert_eq!(paths[6], "/dev/serial/by-id/a");
    let place = |path: &str, exists: bool| Candidate {
        path: path.into(),
        exists,
    };
    assert_eq!(
        default_connection(Some("/dev/x"), &[]).as_deref(),
        Some("serial:/dev/x:57600")
    );
    assert_eq!(
        default_connection(None, &[place("a", false), place("b", true)]).as_deref(),
        Some("serial:b:57600")
    );
    assert_eq!(default_connection(None, &[place("a", false)]), None);
    let mut out = String::new();
    print_serial_ports(&[], &mut out);
    assert_eq!(out, "no serial ports detected\n");
    let mut out = String::new();
    print_serial_ports(
        &[
            port("/dev/ttyS0", other()),
            port(
                "/dev/ttyACM0",
                PortKind::Usb(usb(0x3185, None, Some("PX4"))),
            ),
        ],
        &mut out,
    );
    assert_eq!(
        out,
        "/dev/ttyS0 score=0 Unknown\n/dev/ttyACM0 score=2050 usb vid=0x3185 pid=0x002a manufacturer=- product=PX4 serial=-\n"
    );
}

#[test]
fn reads_connection_strings() {
    assert_eq!(
        parse_serial_connection("serial:/dev/ttyACM0:57600"),
        Ok(("/dev/ttyACM0".to_string(), 57600))
    );
    assert_eq!(
        parse_serial_connection("serial:a:b:+9"),
        Ok(("a:b".to_string(), 9))
    );
    assert_eq!(
        parse_serial_connection("x"),
        Err(ConnectionError::NotSerial)
    );
    assert_eq!(
        parse_serial_connection("serial:x"),
        Err(ConnectionError::NoBaud)
    );
    for text in ["serial:x:", "serial:x:-1", "serial:x:4294967296", "serial:x:y"] {
        assert_eq!(
            parse_serial_connection(text),
            Err(ConnectionError::BadBaud),
            "{text}"
        );
    }
    assert!(matches!(
        open_transport("udp-listen:0.0.0.0:14550"),
        Ok(Connection::UdpListen { addr }) if addr == "0.0.0.0:14550"
    ));
    for text in ["udp-connect:h:1", "udp:h:1"] {
        assert!(matches!(
            open_transport(text),
            Ok(Connection::UdpConnect { addr }) if addr == "h:1"
        ));
    }
    assert!(matches!(
        open_transport("tcp:h:1"),
        Ok(Connection::Tcp { addr }) if addr == "h:1"
    ));
    let found = default_connection(Some("/dev/a:b"), &[]).expect("connection");
    assert!(matches!(
        open_transport(&found),
        Ok(Connection::Serial { path, baud: 57600 }) if path == "/dev/a:b"
    ));
    for baud in [0, 9600, u32::MAX] {
        assert!(matches!(
            open_transport(&format!("serial:/dev/a:b:{baud}")),
            Ok(Connection::Serial { path, baud: speed }) if path == "/dev/a:b" && speed == baud
        ));
    }
    assert!(matches!(
        open_transport("serial:x"),
        Err(ConnectionError::NoBaud)
    ));
    assert!(matches!(
        open_transport("http:x"),
        Err(ConnectionError::Unsupported)
    ));
}

#[test]
fn reads_port_tables() {
    let indexes = parse_serial_port_indexes(
        "# \"NO\": {\n\"index\": 1,\n\"A\" : {\n\"index\" : '5',\n\"B\": 3,\n\"C\":{ \"index\": 9\n\"index\": \"7\", # x\n\"index\": x,\n\"index\" 4\n",
    );
    assert_eq!(indexes.get("A").map(String::as_str), Some("5"));
    assert_eq!(indexes.get("C").map(String::as_str), Some("7"));
    assert_eq!(indexes.len(), 2);
}

#[test]
fn sends_lines() {
    let mut out = String::new();
    write_output_line(&mut out, "a");
    write_output_block(&mut out, "b");
    write_output_block(&mut out, "c\n");
    assert_eq!(out, "a\nb\nc\n");
    assert_eq!(write_output_text("a\nb\n", true), "a\r\nb\r\n");
    assert_eq!(write_output_text("a\nb\n", false), "a\nb\n");
}
