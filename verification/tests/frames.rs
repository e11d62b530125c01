use mavlink::dialects::common;
use mavlink::{MavHeader, MavlinkVersion};
use px4_param_audit::collect::{
    received_param, request_missing_param_indexes, update_param_collection, ReceivedParam,
};
use px4_param_audit::collector::{CollectAction, ParamCollector};
use px4_param_audit::encoding::integer_encoding_from_autopilot_version;
use px4_param_audit::frame::{
    decode_mavlink_frame, next_header, FrameDecoder, Header, Incoming, HEARTBEAT_ID, PARAM_VALUE_ID,
};
use px4_param_audit::ieee::Real32;
use px4_param_audit::param::{MavParamType, ParamEncoding};
use px4_param_audit::table::TextMap;
use px4_param_audit::vehicle::{
    format_hash, format_px4_version, heartbeat_identity, print_identity, reported_version,
    HeartbeatWait, ReplyWait, WaitAction,
};
use std::collections::HashSet;

const HEADER: MavHeader = MavHeader {
    system_id: 7,
    component_id: 9,
    sequence: 11,
};

fn bytes(version: MavlinkVersion, message: &common::MavMessage) -> Vec<u8> {
    let mut out = Vec::new();
    mavlink::write_versioned_msg(&mut out, version, HEADER, message).expect("frame");
    out
}

fn param_value(name: &str, value: f32, index: u16) -> common::MavMessage {
    common::MavMessage::PARAM_VALUE(common::PARAM_VALUE_DATA {
        param_value: value,
        param_count: 3,
        param_index: index,
        param_id: name.into(),
        param_type: common::MavParamType::MAV_PARAM_TYPE_INT32,
    })
}

fn heartbeat(autopilot: common::MavAutopilot) -> common::MavMessage {
    common::MavMessage::HEARTBEAT(common::HEARTBEAT_DATA {
        custom_mode: 5,
        mavtype: common::MavType::MAV_TYPE_QUADROTOR,
        autopilot,
        base_mode: common::MavModeFlag::empty(),
        system_status: common::MavState::MAV_STATE_ACTIVE,
        mavlink_version: 3,
    })
}

fn feed(decoder: &mut FrameDecoder, bytes: &[u8]) -> Vec<(Header, Incoming)> {
    decoder.extend(bytes);
    let mut out = Vec::new();
    while let Some(found) = decoder.decode_next_frame() {
        out.push(found);
    }
    out
}

fn names(found: &[(Header, Incoming)]) -> Vec<String> {
    found
        .iter()
        .map(|(_, message)| match message {
            Incoming::ParamValue { name, .. } => name.clone().unwrap_or_default(),
            Incoming::Heartbeat(_, autopilot, _) => autopilot.clone(),
            Incoming::AutopilotVersion(_) => "version".to_string(),
            Incoming::Other => "other".to_string(),
        })
        .collect()
}

#[test]
fn reads_parameters_out_of_frames_of_both_versions() {
    for version in [MavlinkVersion::V1, MavlinkVersion::V2] {
        let frame = bytes(version, &param_value("EKF2_GPS_CTRL", 7.5, 2));
        let (header, message) = decode_mavlink_frame(&frame).expect("message");
        assert_eq!(
            header,
            Header {
                system_id: 7,
                component_id: 9,
                sequence: 11
            }
        );
        match message {
            Incoming::ParamValue {
                name,
                bits,
                type_code,
                count,
                index,
            } => {
                assert_eq!(name.as_deref(), Some("EKF2_GPS_CTRL"));
                assert_eq!(bits, 7.5f32.to_bits());
                assert_eq!(type_code, 6);
                assert_eq!(count, 3);
                assert_eq!(index, 2);
            }
            other => panic!("{other:?}"),
        }
    }
}

#[test]
fn lays_parameters_out_as_stated() {
    let frame = bytes(
        MavlinkVersion::V2,
        &param_value("A", f32::from_bits(0x0403_0201), 0x0605),
    );
    assert_eq!(u32::from(frame[7]), PARAM_VALUE_ID);
    let payload = &frame[10..10 + frame[1] as usize];
    assert_eq!(&payload[..9], &[1, 2, 3, 4, 3, 0, 5, 6, b'A']);
    assert_eq!(payload[24], 6);
}

#[test]
fn every_type_code_of_the_protocol_is_read() {
    for code in 0..=255u8 {
        let mut payload = vec![0u8; 25];
        payload[8] = b'P';
        payload[24] = code;
        let mut frame = vec![0xfd, 25, 0, 0, 1, 2, 3, 22, 0, 0];
        frame.extend(payload);
        frame.extend([0, 0]);
        let found = decode_mavlink_frame(&frame);
        assert_eq!(found.is_some(), (1..=10).contains(&code), "{code}");
        if let Some((_, message)) = found {
            assert!(received_param(message).is_some());
        }
    }
}

#[test]
fn skips_noise_and_unknown_frames() {
    let mut stream = vec![1, 2, 3];
    stream.extend([0xfd, 1, 0, 0, 0, 0, 0, 0xff, 0xff, 0x7f, 42, 0, 0]);
    stream.extend(bytes(MavlinkVersion::V2, &param_value("ONE", 1.0, 0)));
    stream.extend([9, 9]);
    stream.extend(bytes(MavlinkVersion::V1, &param_value("TWO", 2.0, 1)));
    let mut decoder = FrameDecoder::new();
    let found = feed(&mut decoder, &stream);
    assert_eq!(names(&found), vec!["ONE", "TWO"]);
    assert!(decoder.decode_next_frame().is_none());
}

#[test]
fn pieces_of_a_stream_do_not_matter() {
    let mut stream = Vec::new();
    for i in 0..4u16 {
        stream.extend(bytes(
            MavlinkVersion::V2,
            &param_value(&format!("P{i}"), f32::from(i), i),
        ));
        stream.push(0);
    }
    let mut whole = FrameDecoder::new();
    let expected = names(&feed(&mut whole, &stream));
    assert_eq!(expected, vec!["P0", "P1", "P2", "P3"]);
    for size in 1..40 {
        let mut decoder = FrameDecoder::new();
        let mut found = Vec::new();
        for piece in stream.chunks(size) {
            found.extend(names(&feed(&mut decoder, piece)));
        }
        assert_eq!(found, expected, "{size}");
    }
}

#[test]
fn signed_frames_are_longer() {
    let mut frame = bytes(MavlinkVersion::V2, &param_value("SIGNED", 1.0, 0));
    frame[2] |= 1;
    let mut decoder = FrameDecoder::new();
    assert!(feed(&mut decoder, &frame).is_empty());
    let mut rest = vec![0xfe; 13];
    rest.extend(bytes(MavlinkVersion::V2, &param_value("NEXT", 1.0, 0)));
    assert_eq!(names(&feed(&mut decoder, &rest)), vec!["SIGNED", "NEXT"]);
}

#[test]
fn tells_autopilots_from_other_senders() {
    let header = Header {
        system_id: 1,
        component_id: 2,
        sequence: 3,
    };
    let frame = bytes(
        MavlinkVersion::V2,
        &heartbeat(common::MavAutopilot::MAV_AUTOPILOT_PX4),
    );
    let (_, message) = decode_mavlink_frame(&frame).expect("message");
    let identity = heartbeat_identity(&header, &message).expect("vehicle");
    assert_eq!(identity.system_id, 1);
    assert_eq!(identity.component_id, 2);
    let mut out = String::new();
    print_identity(&identity, &mut out);
    assert_eq!(
        out,
        "vehicle: sys=1 comp=2 autopilot=MAV_AUTOPILOT_PX4 mav_type=MAV_TYPE_QUADROTOR\npx4 version: unavailable via AUTOPILOT_VERSION\n"
    );
    let frame = bytes(
        MavlinkVersion::V2,
        &heartbeat(common::MavAutopilot::MAV_AUTOPILOT_INVALID),
    );
    let (_, message) = decode_mavlink_frame(&frame).expect("message");
    assert!(heartbeat_identity(&header, &message).is_none());
    assert!(reported_version(message).is_none());
    assert!(heartbeat_identity(&header, &Incoming::Other).is_none());
}

#[test]
fn reads_versions_and_capabilities() {
    for (capabilities, expected) in [
        (0x10u64, Some(ParamEncoding::Bytewise)),
        (0x2_0000, Some(ParamEncoding::CCast)),
        (0x2_0010, None),
        (0, None),
    ] {
        let message = common::MavMessage::AUTOPILOT_VERSION(common::AUTOPILOT_VERSION_DATA {
            capabilities: common::MavProtocolCapability::from_bits_retain(capabilities),
            flight_sw_version: 0x010e_00ff,
            board_version: 50,
            vendor_id: 12677,
            product_id: 6,
            flight_custom_version: [0, 1, 0x2a, 0xff, 0x10, 9, 0xab, 0xcd],
            ..common::AUTOPILOT_VERSION_DATA::default()
        });
        let frame = bytes(MavlinkVersion::V2, &message);
        let (header, message) = decode_mavlink_frame(&frame).expect("message");
        let version = reported_version(message).expect("version");
        assert_eq!(integer_encoding_from_autopilot_version(&version), expected);
        assert_eq!(format_px4_version(version.flight_sw_version), "1.14.0 type=255");
        assert_eq!(
            format_hash(&version.flight_custom_version),
            "00012aff1009abcd"
        );
        let identity = px4_param_audit::vehicle::VehicleIdentity {
            system_id: header.system_id,
            component_id: header.component_id,
            mav_type: "T".into(),
            autopilot: "A".into(),
            version: Some(version),
        };
        let mut out = String::new();
        print_identity(&identity, &mut out);
        assert_eq!(
            out,
            "vehicle: sys=7 comp=9 autopilot=A mav_type=T\npx4 version: 1.14.0 type=255 board=50 vendor=12677 product=6 git=00012aff1009abcd\n"
        );
    }
}

#[test]
fn numbers_frames_around() {
    let mut sequence = 254;
    assert_eq!(next_header(&mut sequence).sequence, 254);
    let header = next_header(&mut sequence);
    assert_eq!(
        header,
        Header {
            system_id: 255,
            component_id: 190,
            sequence: 255
        }
    );
    assert_eq!(next_header(&mut sequence).sequence, 0);
    assert_eq!(sequence, 1);
}

fn param(name: &str, count: u16, index: u16) -> ReceivedParam {
    ReceivedParam {
        name: name.into(),
        value: Real32 {
            bits: 1.0f32.to_bits(),
        },
        mav_type: MavParamType::Real32,
        count,
        index,
    }
}

#[test]
fn takes_parameters_in() {
    let mut params = TextMap::new();
    let mut received = HashSet::new();
    let mut expected = 0;
    update_param_collection(param("", 9, 0), &mut params, &mut received, &mut expected);
    assert_eq!((params.len(), received.len(), expected), (0, 0, 0));
    update_param_collection(param("A", 3, 0), &mut params, &mut received, &mut expected);
    update_param_collection(param("B", 0, 1), &mut params, &mut received, &mut expected);
    update_param_collection(param("A", 2, 0), &mut params, &mut received, &mut expected);
    assert_eq!((params.len(), received.len(), expected), (2, 2, 3));
    assert_eq!(
        params.get("A").expect("param").encoding,
        ParamEncoding::CCast
    );
}

#[test]
fn names_that_are_no_text_are_empty() {
    let message = Incoming::ParamValue {
        name: None,
        bits: 0,
        type_code: 9,
        count: 1,
        index: 0,
    };
    assert_eq!(received_param(message).expect("param").name, "");
    let message = Incoming::ParamValue {
        name: Some("X".into()),
        bits: 0,
        type_code: 11,
        count: 1,
        index: 0,
    };
    assert!(received_param(message).is_none());
    assert!(received_param(Incoming::Other).is_none());
}

#[test]
fn asks_for_what_is_missing_in_turns() {
    let received: HashSet<u16> = (0..10).collect();
    let mut cursor = 0;
    let first = request_missing_param_indexes(70, &received, &mut cursor);
    assert_eq!(first, (10..60).collect::<Vec<i16>>());
    assert_eq!(cursor, 60);
    let second = request_missing_param_indexes(70, &received, &mut cursor);
    let mut around: Vec<i16> = (60..70).collect();
    around.extend(10..50);
    assert_eq!(second, around);
    assert_eq!(cursor, 50);
    let all: HashSet<u16> = (0..70).collect();
    assert!(request_missing_param_indexes(70, &all, &mut cursor).is_empty());
    assert_eq!(cursor, 0);
    assert!(request_missing_param_indexes(0, &all, &mut cursor).is_empty());
}

#[test]
fn collects_until_all_is_there() {
    let mut collector = ParamCollector::new(1000, 15_000);
    assert!(matches!(collector.poll(1000), CollectAction::Receive));
    collector.receive(param("A", 2, 0));
    assert!(matches!(collector.poll(1500), CollectAction::Receive));
    collector.receive(param("B", 2, 1));
    assert!(matches!(collector.poll(1600), CollectAction::Done));
    assert_eq!(collector.params.len(), 2);
}

#[test]
fn asks_again_after_the_time_is_up() {
    let mut collector = ParamCollector::new(0, 20_000);
    collector.receive(param("A", 3, 0));
    match collector.poll(20_000) {
        CollectAction::Request(indexes) => assert_eq!(indexes, vec![1, 2]),
        other => panic!("{other:?}"),
    }
    assert!(matches!(collector.poll(20_100), CollectAction::Receive));
    collector.receive(param("B", 9, 1));
    match collector.poll(20_700) {
        CollectAction::Request(indexes) => assert_eq!(indexes, vec![2]),
        other => panic!("{other:?}"),
    }
    collector.receive(param("C", 9, 2));
    assert!(matches!(collector.poll(20_701), CollectAction::Done));
    let mut collector = ParamCollector::new(0, 20_000);
    collector.receive(param("A", 3, 0));
    assert!(matches!(
        collector.poll(20_000),
        CollectAction::Request(_)
    ));
    assert!(matches!(collector.poll(34_999), CollectAction::Request(_)));
    assert!(matches!(collector.poll(35_000), CollectAction::Done));
}

#[test]
fn gives_up_without_parameters() {
    let mut collector = ParamCollector::new(0, 10);
    assert!(matches!(collector.poll(9), CollectAction::Receive));
    assert!(matches!(collector.poll(10), CollectAction::TimedOut));
}

#[test]
fn beats_while_it_waits() {
    let mut wait = HeartbeatWait::new(100, 2000);
    assert_eq!(wait.poll(100), WaitAction::Beat);
    assert_eq!(wait.poll(101), WaitAction::Receive);
    assert_eq!(wait.poll(999), WaitAction::Receive);
    assert_eq!(wait.poll(1000), WaitAction::Beat);
    assert_eq!(wait.poll(2100), WaitAction::TimedOut);
}

#[test]
fn waits_for_a_reply_until_the_deadline() {
    let wait = ReplyWait::new(100, 2000);
    assert_eq!(wait.poll(100), WaitAction::Receive);
    assert_eq!(wait.poll(2099), WaitAction::Receive);
    assert_eq!(wait.poll(2100), WaitAction::TimedOut);
    assert_eq!(ReplyWait::new(5, 0).poll(5), WaitAction::TimedOut);
    assert_eq!(ReplyWait::new(5, u64::MAX).deadline, u64::MAX);
}

fn param_frame(version: MavlinkVersion, name: &[u8; 16]) -> Vec<u8> {
    let mut payload = vec![1, 2, 3, 4, 5, 6, 7, 8];
    payload.extend(name);
    payload.push(9);
    let mut frame = match version {
        MavlinkVersion::V1 => vec![0xfe, 25, 1, 2, 3, 22],
        MavlinkVersion::V2 => vec![0xfd, 25, 0, 0, 1, 2, 3, 22, 0, 0],
    };
    frame.extend(payload);
    frame.extend([0, 0]);
    frame
}

#[test]
fn parameters_say_what_their_payload_says() {
    let cases: [(&[u8; 16], Option<&str>); 6] = [
        (b"ABCDEFGHIJKLMNOP", Some("ABCDEFGHIJKLMNOP")),
        (b"AB\0CDEFGHIJKLMNO", Some("AB")),
        (b"\0BCDEFGHIJKLMNOP", Some("")),
        (b"\xc3\xa9\xe2\x82\xac\xf0\x9f\x98\x80\0\0\0\0\0\0\0", Some("\u{e9}\u{20ac}\u{1f600}")),
        (b"A\xc0\x80\0\0\0\0\0\0\0\0\0\0\0\0\0", None),
        (b"A\0\xff\0\0\0\0\0\0\0\0\0\0\0\0\0", Some("A")),
    ];
    for version in [MavlinkVersion::V1, MavlinkVersion::V2] {
        for (bytes, text) in cases {
            let mut stream = vec![1, 2, 3];
            stream.extend(param_frame(version, bytes));
            let found = feed(&mut FrameDecoder::new(), &stream);
            assert_eq!(found.len(), 1);
            match &found[0].1 {
                Incoming::ParamValue {
                    name,
                    bits,
                    type_code,
                    count,
                    index,
                } => {
                    assert_eq!(name.as_deref(), text);
                    assert_eq!(*bits, 0x0403_0201);
                    assert_eq!(*count, 0x0605);
                    assert_eq!(*index, 0x0807);
                    assert_eq!(*type_code, 9);
                }
                other => panic!("{other:?}"),
            }
        }
    }
}

#[test]
fn signs_of_life_carry_the_code_of_the_autopilot() {
    for version in [MavlinkVersion::V1, MavlinkVersion::V2] {
        for code in 0..=255u8 {
            let mut frame = match version {
                MavlinkVersion::V1 => vec![0xfe, 9, 1, 2, 3, 0],
                MavlinkVersion::V2 => vec![0xfd, 9, 0, 0, 1, 2, 3, 0, 0, 0],
            };
            frame.extend([0, 0, 0, 0, 2, code, 0, 4, 3, 0, 0]);
            match decode_mavlink_frame(&frame) {
                Some((header, message)) => {
                    assert!(matches!(message, Incoming::Heartbeat(read, _, _) if read == code));
                    assert_eq!(heartbeat_identity(&header, &message).is_none(), code == 8);
                }
                None => assert!(code > 20),
            }
        }
    }
    let short = [0xfd, 5, 0, 0, 1, 2, 3, 0, 0, 0, 0, 0, 0, 0, 2, 0, 0];
    let (_, message) = decode_mavlink_frame(&short).expect("message");
    assert!(matches!(message, Incoming::Heartbeat(0, _, _)));
    let (_, message) = decode_mavlink_frame(&bytes(
        MavlinkVersion::V2,
        &heartbeat(common::MavAutopilot::MAV_AUTOPILOT_INVALID),
    ))
    .expect("message");
    assert!(
        matches!(message, Incoming::Heartbeat(8, name, _) if name == "MAV_AUTOPILOT_INVALID")
    );
    assert_eq!(
        <common::HEARTBEAT_DATA as mavlink::MessageData>::ID,
        HEARTBEAT_ID
    );
}
