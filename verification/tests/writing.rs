use px4_param_audit::apply::{WriteAction, WriteBatch, WriteEvent};
use px4_param_audit::audit::display_status;
use px4_param_audit::baseline::{
    baseline_fallback_reason, baseline_status_line, build_recommendations, recommendation_source,
    scripted_airframe, select_airframe, status_airframe, BaselineLayer,
};
use px4_param_audit::collect::ReceivedParam;
use px4_param_audit::confirm::{
    answer_is_yes, confirm_writes, integer_error_message, param_confirmation, planned_write_line,
    send_param_set, write_confirmation_matches, write_question, written_line, Confirmation,
};
use px4_param_audit::encoding::{
    infer_global_integer_encoding, param_integer_range, score_range,
};
use px4_param_audit::firmware::load_firmware_defaults;
use px4_param_audit::ieee::Real32;
use px4_param_audit::model::{AuditRow, ParamMetadata, WriteRequest};
use px4_param_audit::param::{
    encode_param_set_value, IntegerError, MavParamType, ParamEncoding, ParamValue, WriteValueError,
};
use px4_param_audit::plan::{plan_error_message, plan_writes, PlanError};
use px4_param_audit::run::{audit_device, context_lines, settle_encoding};
use px4_param_audit::table::{TextMap, TextSet};
use px4_param_audit::request::{
    request_autopilot_version, request_param_by_index, request_params, Request,
};
use px4_param_audit::vehicle::VehicleIdentity;

fn single(value: f32) -> Real32 {
    Real32 {
        bits: value.to_bits(),
    }
}

fn strings(texts: &[&str]) -> Vec<String> {
    texts.iter().map(|t| t.to_string()).collect()
}

fn map(entries: &[(&str, &str)]) -> TextMap<String> {
    let mut out = TextMap::new();
    for (key, value) in entries {
        out.insert(key.to_string(), value.to_string());
    }
    out
}

fn set(names: &[&str]) -> TextSet {
    let mut out = TextSet::new();
    for name in names {
        out.insert(name.to_string());
    }
    out
}

fn row(name: &str, baseline: &str, status: &str) -> AuditRow {
    AuditRow {
        name: name.into(),
        current: "1".into(),
        baseline: baseline.into(),
        source: "firmware default".into(),
        status: status.into(),
        baseline_fallback: false,
        mav_type: MavParamType::Int32,
        metadata: None,
    }
}

fn write(value: f32, mav_type: MavParamType, encoding: ParamEncoding) -> WriteRequest {
    WriteRequest {
        name: "A".into(),
        value: single(value),
        mav_type,
        encoding,
        source: "test".into(),
    }
}

#[test]
fn plans_writes_in_the_order_of_names() {
    let mut rows = vec![
        row("C", "3", "diff"),
        row("A", "2", "diff"),
        row("B", "1", "match"),
        row("D", "GPS1", "diff"),
        row("E", "<unknown>", "unknown"),
        row("F", "5", "diff"),
    ];
    rows[5].baseline_fallback = true;
    rows[0].mav_type = MavParamType::Real32;
    let writes = plan_writes(true, &[], &rows, ParamEncoding::Bytewise).expect("plan");
    let names: Vec<&str> = writes.iter().map(|w| w.name.as_str()).collect();
    assert_eq!(names, vec!["A", "C"]);
    assert_eq!(writes[0].source, "PX4 baseline (firmware default)");
    assert_eq!(writes[0].encoding, ParamEncoding::Bytewise);
    assert_eq!(writes[1].encoding, ParamEncoding::CCast);
    assert_eq!(
        plan_writes(false, &[], &rows, ParamEncoding::CCast).err(),
        Some(PlanError::NothingToWrite)
    );
}

#[test]
fn plans_explicit_settings() {
    let rows = [row("SYS_HAS_GPS", "0", "diff"), row("EKF2_GPS_CTRL", "7", "match")];
    let settings = strings(&["SYS_HAS_GPS=1", "EKF2_GPS_CTRL=7"]);
    let writes = plan_writes(true, &settings, &rows, ParamEncoding::CCast).expect("plan");
    assert_eq!(writes.len(), 2);
    assert_eq!(writes[1].value, single(1.0));
    assert_eq!(writes[1].source, "--set");
    for (setting, error, message) in [
        (
            "X",
            PlanError::Malformed { index: 1 },
            "expected PARAM=VALUE, got X",
        ),
        (
            "X=1",
            PlanError::NoSuchParameter { index: 1 },
            "the device has no such parameter: X=1",
        ),
        (
            "EKF2_GPS_CTRL=a",
            PlanError::BadValue {
                index: 1,
                error: WriteValueError::NotANumber,
            },
            "EKF2_GPS_CTRL: invalid float literal",
        ),
    ] {
        let settings = strings(&["SYS_HAS_GPS=1", setting]);
        let found = plan_writes(false, &settings, &rows, ParamEncoding::CCast)
            .err()
            .expect("error");
        assert_eq!(found, error);
        assert_eq!(plan_error_message(found, &settings), message);
    }
}

#[test]
fn echoes_confirm_writes() {
    let types = [
        MavParamType::Uint8,
        MavParamType::Int8,
        MavParamType::Uint16,
        MavParamType::Int16,
        MavParamType::Uint32,
        MavParamType::Int32,
        MavParamType::Real32,
    ];
    for mav_type in types {
        for encoding in [ParamEncoding::CCast, ParamEncoding::Bytewise] {
            for value in [0.0, 1.0, -3.0, 200.0, 0.1, 1e-30, 3e38, -123456.789] {
                let request = write(value, mav_type, encoding);
                if let Ok(sent) = encode_param_set_value(request.value, mav_type, encoding) {
                    let answer = ParamValue {
                        value: sent,
                        mav_type,
                        encoding,
                    };
                    assert!(
                        write_confirmation_matches(&request, &answer),
                        "{value} {mav_type:?} {encoding:?}"
                    );
                }
            }
        }
    }
    let request = write(f32::INFINITY, MavParamType::Real32, ParamEncoding::CCast);
    let answer = ParamValue {
        value: request.value,
        mav_type: MavParamType::Real32,
        encoding: ParamEncoding::CCast,
    };
    assert!(!write_confirmation_matches(&request, &answer));
}

#[test]
fn other_parameters_confirm_nothing() {
    let request = write(1.0, MavParamType::Int32, ParamEncoding::Bytewise);
    let param = |name: &str, bits: u32| ReceivedParam {
        name: name.into(),
        value: Real32 { bits },
        mav_type: MavParamType::Int32,
        count: 1,
        index: 0,
    };
    let confirmed = param_confirmation(&request, &param("A", 1)).expect("confirmation");
    assert_eq!(confirmed.encoding, ParamEncoding::Bytewise);
    assert_eq!(written_line("A", &confirmed), "set A = 1");
    assert!(param_confirmation(&request, &param("A", 2)).is_none());
    assert!(param_confirmation(&request, &param("B", 1)).is_none());
}

#[test]
fn sends_encoded_values() {
    let identity = VehicleIdentity {
        system_id: 3,
        component_id: 4,
        mav_type: "T".into(),
        autopilot: "A".into(),
        version: None,
    };
    let request = write(-1.0, MavParamType::Int16, ParamEncoding::Bytewise);
    let sent = send_param_set(&identity, &request).expect("request");
    assert_eq!((sent.target_system, sent.target_component), (3, 4));
    assert_eq!(sent.param_id, "A");
    assert_eq!(sent.param_value.bits, 0xffff);
    assert_eq!(sent.param_type, MavParamType::Int16);
    let request = write(1e9, MavParamType::Int16, ParamEncoding::Bytewise);
    let error = send_param_set(&identity, &request).expect_err("error");
    assert_eq!(
        integer_error_message(&error, "x"),
        "integer parameter value 1000000000 is outside [-32768, 32767]"
    );
    assert_eq!(
        integer_error_message(&IntegerError::NotFinite, "x"),
        "integer parameter value must be finite"
    );
    assert_eq!(
        integer_error_message(
            &IntegerError::NotWhole {
                value: single(7.5)
            },
            "7.5"
        ),
        "integer parameter value must be whole: 7.5"
    );
    assert_eq!(
        integer_error_message(
            &IntegerError::NotIntegerType {
                mav_type: MavParamType::Real64
            },
            ""
        ),
        "not an integer MAVLink parameter type: MAV_PARAM_TYPE_REAL64"
    );
}

#[test]
fn asks_before_it_writes() {
    assert_eq!(confirm_writes(true, false), Confirmation::Given);
    assert_eq!(confirm_writes(false, true), Confirmation::Ask);
    assert_eq!(confirm_writes(false, false), Confirmation::Refused);
    assert_eq!(
        write_question(3),
        "write 3 parameter(s) to PX4? Type 'yes' to continue: "
    );
    assert!(answer_is_yes(" yes\n"));
    assert!(!answer_is_yes("y"));
    let request = write(1.5, MavParamType::Real32, ParamEncoding::CCast);
    assert_eq!(
        planned_write_line(&request, "1.5"),
        "  A = 1.5 (MAV_PARAM_TYPE_REAL32, CCast, test)"
    );
}

#[test]
fn marks_fallback_statuses() {
    let mut r = row("A", "2", "diff");
    assert_eq!(display_status(&r), "diff");
    r.baseline_fallback = true;
    assert_eq!(display_status(&r), "fallback diff");
    r.status = "unknown".into();
    assert_eq!(display_status(&r), "unknown");
}

#[test]
fn says_why_it_falls_back() {
    let wanted = set(&["A", "SYS_AUTOSTART"]);
    let reason = |id, airframe: &[(&str, &str)]| baseline_fallback_reason(id, &map(airframe), &wanted);
    assert_eq!(
        reason(None, &[]).as_deref(),
        Some("device SYS_AUTOSTART was not received")
    );
    assert_eq!(
        reason(Some(0), &[]).as_deref(),
        Some("SYS_AUTOSTART=0 does not select an airframe")
    );
    assert_eq!(
        reason(Some(4001), &[]).as_deref(),
        Some("PX4 airframe 4001 was not found")
    );
    assert_eq!(
        reason(Some(-5), &[("SYS_AUTOSTART", "-5"), ("B", "1")]).as_deref(),
        Some("PX4 airframe -5 has no matching parameter defaults")
    );
    assert_eq!(reason(Some(4001), &[("A", "1")]), None);
    assert_eq!(select_airframe(Some(1), Some(2)), Some(1));
    assert_eq!(select_airframe(None, Some(2)), Some(2));
    assert_eq!(scripted_airframe(Some(4019)), Some(4019));
    assert_eq!(scripted_airframe(Some(0)), None);
    assert_eq!(scripted_airframe(None), None);
}

#[test]
fn words_the_baseline() {
    let line = baseline_status_line;
    assert_eq!(
        line(Some(1), Some(2), Some("X"), None),
        "Baseline: PX4 airframe 2 (X) via --sys-autostart; device SYS_AUTOSTART=1"
    );
    assert_eq!(
        line(Some(2), Some(2), Some("X"), None),
        "Baseline: PX4 airframe 2 (X) via --sys-autostart"
    );
    assert_eq!(
        line(None, Some(2), None, None),
        "Baseline: PX4 airframe 2 (unknown airframe) via --sys-autostart"
    );
    assert_eq!(
        line(Some(7), None, Some("X"), None),
        "Baseline: PX4 airframe 7 (X) from device SYS_AUTOSTART"
    );
    assert_eq!(
        line(Some(0), None, None, None),
        "Baseline: firmware defaults only; device SYS_AUTOSTART=0 does not select an airframe"
    );
    assert_eq!(
        line(None, None, None, None),
        "Baseline: firmware defaults only; device SYS_AUTOSTART was not received"
    );
    assert_eq!(
        line(Some(1), None, None, Some("why")),
        "Baseline: QGC-style firmware defaults only; airframe-specific defaults not applied (why)"
    );
    assert_eq!(status_airframe(Some(1), Some(2), false), Some(2));
    assert_eq!(status_airframe(Some(1), None, false), Some(1));
    assert_eq!(status_airframe(Some(0), None, false), None);
    assert_eq!(status_airframe(Some(1), Some(2), true), None);
}

#[test]
fn later_layers_win() {
    let layer = |value: &str, source: &str| BaselineLayer {
        defaults: map(&[("A", value)]),
        source: source.into(),
        fallback: false,
    };
    let recs = build_recommendations(
        map(&[("A", "1"), ("B", "2"), ("GPS_1_CONFIG", " GPS1 ")]),
        map(&[("B", "3")]),
        &[layer("4", "x"), layer("5", "y")],
        &set(&["GPS_1_CONFIG"]),
        &map(&[("GPS1", "201")]),
        None,
    );
    assert_eq!(recs.get("A").expect("rec").value, "5");
    assert_eq!(recs.get("A").expect("rec").source, "y");
    assert_eq!(recs.get("B").expect("rec").source, "airframe default");
    let gps = recs.get("GPS_1_CONFIG").expect("rec");
    assert_eq!(gps.value, "201");
    assert_eq!(gps.source, "firmware default (GPS1)");
    assert_eq!(recs.len(), 3);
    assert_eq!(recommendation_source("a", None), "a");
    assert_eq!(recommendation_source("a", Some("b")), "a (b)");
}

#[test]
fn scores_ranges() {
    let mut score = 0;
    score_range(&mut score, Some(5), 0, 5);
    assert_eq!(score, 6);
    score_range(&mut score, Some(6), 0, 5);
    assert_eq!(score, 0);
    score_range(&mut score, None, 0, 5);
    assert_eq!(score, -6);
    let range = |min: Option<&str>, max: Option<&str>| {
        param_integer_range(&ParamMetadata {
            min: min.map(String::from),
            max: max.map(String::from),
            ..ParamMetadata::default()
        })
    };
    assert_eq!(range(Some("0"), Some("4.6")), Some((0, 5)));
    assert_eq!(range(None, Some("x")), Some((i64::MIN, i64::MAX)));
    assert_eq!(range(Some("5"), Some("4")), None);
    assert_eq!(
        infer_global_integer_encoding(&TextMap::new(), &TextMap::new(), &TextMap::new()),
        ParamEncoding::CCast
    );
}

#[test]
fn audits_a_device() {
    let wanted = set(&["A", "F", "SYS_AUTOSTART"]);
    let firmware = load_firmware_defaults(
        &strings(&[
            "/** A\n * @min 1\n * @max 9 */\nPARAM_DEFINE_INT32(A, 4);\nPARAM_DEFINE_FLOAT(F, 0.5f);\n",
        ]),
        &[],
        &wanted,
    );
    let value = |bits: u32, mav_type| ParamValue {
        value: Real32 { bits },
        mav_type,
        encoding: ParamEncoding::CCast,
    };
    let device = || {
        let mut params = TextMap::new();
        params.insert("SYS_AUTOSTART".to_string(), value(0, MavParamType::Int32));
        params.insert("F".to_string(), value(0.5f32.to_bits(), MavParamType::Real32));
        params.insert("A".to_string(), value(5, MavParamType::Int32));
        params
    };
    let mut params = device();
    let encoding = settle_encoding(&mut params, &firmware, &TextMap::new(), &[], None);
    assert_eq!(encoding, ParamEncoding::Bytewise);
    let rows = audit_device(
        &mut params,
        &firmware,
        map(&[("A", "9")]),
        &TextMap::new(),
        &[],
        encoding,
        Some("why"),
    );
    let shown: Vec<(&str, &str, &str, bool)> = rows
        .iter()
        .map(|r| {
            (
                r.current.as_str(),
                r.baseline.as_str(),
                r.status.as_str(),
                r.baseline_fallback,
            )
        })
        .collect();
    assert_eq!(
        shown,
        vec![
            ("5", "4", "diff", true),
            ("0.5", "0.5", "match", true),
            ("0", "<unknown>", "unknown", false),
        ]
    );
    assert!(plan_writes(true, &[], &rows, encoding).is_err());
    let mut params = device();
    let rows = audit_device(
        &mut params,
        &firmware,
        map(&[("A", "9")]),
        &TextMap::new(),
        &[],
        encoding,
        None,
    );
    assert_eq!(rows[0].baseline, "9");
    assert_eq!(rows[0].source, "airframe default");
    assert!(!rows[0].baseline_fallback);
    let mut params = device();
    assert_eq!(
        settle_encoding(
            &mut params,
            &firmware,
            &TextMap::new(),
            &[],
            Some(ParamEncoding::CCast)
        ),
        ParamEncoding::CCast
    );
    assert_eq!(
        context_lines(encoding, "b".into(), strings(&["v"]), "s".into()),
        strings(&["MAVLink integer encoding: Bytewise", "b", "v", "s"])
    );
}

#[test]
fn requests_go_to_the_vehicle() {
    let identity = VehicleIdentity {
        system_id: 3,
        component_id: 4,
        mav_type: "T".into(),
        autopilot: "A".into(),
        version: None,
    };
    assert_eq!(
        request_autopilot_version(&identity),
        Request::Message {
            target_system: 3,
            target_component: 4,
            message_id: 148,
        }
    );
    assert_eq!(
        u32::from(px4_param_audit::request::AUTOPILOT_VERSION_ID),
        <mavlink::dialects::common::AUTOPILOT_VERSION_DATA as mavlink::MessageData>::ID
    );
    assert_eq!(
        request_params(&identity),
        Request::ParamList {
            target_system: 3,
            target_component: 4,
        }
    );
    assert_eq!(
        request_param_by_index(&identity, -1),
        Request::ParamRead {
            target_system: 3,
            target_component: 4,
            param_index: -1,
        }
    );
}

#[test]
fn writes_go_out_one_by_one() {
    let named = |name: &str| WriteRequest {
        name: name.into(),
        ..write(1.0, MavParamType::Int32, ParamEncoding::CCast)
    };
    let confirmed = |value: f32| {
        WriteEvent::Confirmed(ParamValue {
            value: single(value),
            mav_type: MavParamType::Int32,
            encoding: ParamEncoding::CCast,
        })
    };
    let mut out = String::new();
    let mut batch = WriteBatch::new(vec![named("A"), named("B")]);
    let first = batch.step(WriteEvent::Started, &mut out);
    assert!(matches!(first, WriteAction::Send(write) if write.name == "A"));
    let second = batch.step(confirmed(1.0), &mut out);
    assert!(matches!(second, WriteAction::Send(write) if write.name == "B"));
    assert_eq!(out, "set A = 1\n");
    assert!(matches!(batch.step(confirmed(2.0), &mut out), WriteAction::Finish));
    assert_eq!(out, "set A = 1\nset B = 2\n");

    let mut empty = WriteBatch::new(Vec::new());
    assert!(matches!(empty.step(WriteEvent::Started, &mut out), WriteAction::Finish));
}

#[test]
fn a_failed_write_stops_the_batch() {
    let request = || write(1.0, MavParamType::Int32, ParamEncoding::CCast);
    let mut out = String::new();
    let mut batch = WriteBatch::new(vec![request(), request()]);
    assert!(matches!(batch.step(WriteEvent::Started, &mut out), WriteAction::Send(_)));
    assert!(matches!(batch.step(WriteEvent::Failed, &mut out), WriteAction::Stop));
    let late = WriteEvent::Confirmed(ParamValue {
        value: single(1.0),
        mav_type: MavParamType::Int32,
        encoding: ParamEncoding::CCast,
    });
    assert!(matches!(batch.step(late, &mut out), WriteAction::Stop));
    assert!(matches!(batch.step(WriteEvent::Started, &mut out), WriteAction::Stop));
    assert_eq!(batch.done, 0);
    assert_eq!(out, "");
}
