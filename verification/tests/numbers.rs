use px4_param_audit::encoding::encoding_scores;
use px4_param_audit::ieee::{reals_close, Real32, Real64};
use px4_param_audit::natural::Natural;
use px4_param_audit::numeral::{decimal_text, int_text, parse_i64, parse_u32};
use px4_param_audit::param::{
    bit_enabled, checked_integer, classify_status, decode_integer_bytewise, decode_integer_ccast,
    decode_integer_value, encode_param_set_value, format_float_param, parse_integral_display_value,
    parse_write_value, values_equivalent, IntegerError, MavParamType, ParamEncoding, ParamValue,
    WriteValueError,
};
use px4_param_audit::text::{space, to_chars};

struct Random(u64);

impl Random {
    fn next(&mut self) -> u64 {
        self.0 ^= self.0 << 13;
        self.0 ^= self.0 >> 7;
        self.0 ^= self.0 << 17;
        self.0
    }
}

fn same_single(text: &str) {
    let expected = text.parse::<f32>().ok();
    let found = Real32::parse(text);
    match (expected, found) {
        (None, None) => {}
        (Some(e), Some(f)) => {
            if e.is_nan() {
                assert!(f32::from_bits(f.bits).is_nan(), "{text}");
            } else {
                assert_eq!(e.to_bits(), f.bits, "{text}");
            }
        }
        (e, f) => panic!("{text}: {e:?} {f:?}"),
    }
}

fn same_double(text: &str) {
    let expected = text.parse::<f64>().ok();
    let found = Real64::parse(text);
    match (expected, found) {
        (None, None) => {}
        (Some(e), Some(f)) => {
            if e.is_nan() {
                assert!(f64::from_bits(f.bits).is_nan(), "{text}");
            } else {
                assert_eq!(e.to_bits(), f.bits, "{text}");
            }
        }
        (e, f) => panic!("{text}: {e:?} {f:?}"),
    }
}

const TEXTS: [&str; 64] = [
    "", " ", "0", "-0", "+0", "1", "-1", "+1", "1.", ".1", ".", "+.", "-.", "1e", "1e+", "1e5",
    "1E5", "1e+5", "1e-5", "e5", ".e5", "1.e5", ".5e5", "0x10", "1_000", "1,5", " 1", "1 ", "inf",
    "-inf", "+inf", "INF", "infinity", "-Infinity", "infinit", "nan", "NaN", "-nan", "nano", "1e39",
    "3.4028235e38", "3.4028236e38", "3.40282356779733661637539395458142568447e38",
    "3.40282356779733661637539395458142568448e38", "1e-45", "7e-46", "8e-46", "1.1754944e-38",
    "1.1754943e-38", "1e400", "-1e400", "1e-400", "1.7976931348623157e308",
    "1.7976931348623159e308", "4.9e-324", "2e-324", "3e-324", "16777217", "16777219",
    "9007199254740993", "0.1", "0.30000000000000004", "1e99999999999999999999",
    "0e99999999999999999999",
];

#[test]
fn reads_singles_as_std_does() {
    for text in TEXTS {
        same_single(text);
    }
    let mut random = Random(0x9e37_79b9_7f4a_7c15);
    for _ in 0..400 {
        let value = f32::from_bits(random.next() as u32);
        if value.is_finite() {
            same_single(&format!("{value}"));
            same_single(&format!("{value:e}"));
            same_single(&format!("{value:.3}"));
            let next = f32::from_bits(value.to_bits() ^ 1);
            let middle = (f64::from(value) + f64::from(next)) / 2.0;
            same_single(&format!("{middle:e}"));
            same_single(&format!("{middle:.150}"));
        }
    }
}

#[test]
fn reads_doubles_as_std_does() {
    for text in TEXTS {
        same_double(text);
    }
    let mut random = Random(0x1234_5678_9abc_def1);
    for _ in 0..60 {
        let value = f64::from_bits(random.next());
        if value.is_finite() {
            same_double(&format!("{value:e}"));
        }
        let small = (random.next() as i64 >> 20) as f64 / 1000.0;
        same_double(&format!("{small}"));
        same_double(&format!("{small:.9}"));
    }
}

#[test]
fn writes_singles_as_std_does() {
    let mut random = Random(0x0dd0_beef_0bad_cafe);
    let mut bits: Vec<u32> = vec![
        0,
        0x8000_0000,
        1,
        0x7f80_0000,
        0xff80_0000,
        0x7fc0_0000,
        0xffc0_0000,
        0x7f7f_ffff,
        0.0000005f32.to_bits(),
        0.0000015f32.to_bits(),
        (-0.0000001f32).to_bits(),
        100.0f32.to_bits(),
        0.5f32.to_bits(),
        1234.5678f32.to_bits(),
    ];
    for _ in 0..400 {
        bits.push(random.next() as u32);
        bits.push(((random.next() as i32) as f32 / 4096.0).to_bits());
        bits.push(((random.next() as i32 % 4_000_000) as f32 / 1_000_000.0).to_bits());
    }
    for b in bits {
        let value = f32::from_bits(b);
        let expected = {
            let s = format!("{value:.6}");
            s.trim_end_matches('0').trim_end_matches('.').to_string()
        };
        assert_eq!(format_float_param(Real32 { bits: b }), expected, "{b:#x}");
    }
}

#[test]
fn rounds_as_std_does() {
    let mut random = Random(0xfeed_f00d_dead_beef);
    for i in 0..2000u32 {
        let value = match i % 4 {
            0 => f32::from_bits(random.next() as u32),
            1 => (random.next() as i32 % 100_000) as f32 / 2.0,
            2 => (random.next() as i32 % 100_000) as f32 + 0.00005,
            _ => (random.next() as i32 % 1000) as f32 + 0.0001,
        };
        let real = Real32 {
            bits: value.to_bits(),
        };
        assert_eq!(real.is_finite(), value.is_finite());
        assert_eq!(
            real.is_subnormal(),
            value != 0.0 && value.abs() < f32::MIN_POSITIVE
        );
        if value.is_finite() {
            assert_eq!(real.to_i64(), value.round() as i64, "{value}");
            assert_eq!(
                real.near_whole(1, 126),
                (value - value.round()).abs() <= f32::EPSILON,
                "{value}"
            );
            assert_eq!(
                real.near_whole(0xd1_b717, 112),
                (value - value.round()).abs() <= 0.0001,
                "{value}"
            );
        }
        let double = f64::from(value) * 1.1;
        if double.is_finite() {
            assert_eq!(
                (Real64 {
                    bits: double.to_bits()
                })
                .to_i64(),
                double.round() as i64
            );
        }
    }
}

#[test]
fn compares_as_std_does() {
    let mut random = Random(0xabcd_ef01_2345_6789);
    for i in 0..2000u32 {
        let a = match i % 3 {
            0 => f64::from_bits(random.next()),
            1 => (random.next() as i32) as f64 / 1e6,
            _ => (random.next() as i16) as f64,
        };
        let step = match i % 5 {
            0 => 0.0,
            1 => 0.0001,
            2 => 0.000_099_999_999,
            3 => 0.000_100_000_001,
            _ => 1.0,
        };
        let b = a + step;
        let expected = (a - b).abs() < 0.0001;
        assert_eq!(
            reals_close(&Real64 { bits: a.to_bits() }, &Real64 { bits: b.to_bits() }),
            expected,
            "{a} {b}"
        );
    }
    let infinite = Real64 {
        bits: f64::INFINITY.to_bits(),
    };
    assert!(!reals_close(&infinite, &infinite));
}

fn std_equivalent(a: &str, b: &str) -> bool {
    if let (Ok(af), Ok(bf)) = (a.parse::<f64>(), b.parse::<f64>()) {
        (af - bf).abs() < 0.0001
    } else {
        a == b
    }
}

#[test]
fn compares_shown_values() {
    for a in TEXTS {
        for b in TEXTS {
            assert_eq!(values_equivalent(a, b), std_equivalent(a, b), "{a} {b}");
        }
    }
    assert!(values_equivalent("7", "7.00009"));
    assert!(values_equivalent("7", "7.0001"));
    assert!(!values_equivalent("7", "7.0002"));
    assert!(values_equivalent("GPS1", "GPS1"));
    assert_eq!(classify_status("1", "<unknown>"), "unknown");
    assert_eq!(classify_status("<missing>", "1"), "unknown");
    assert_eq!(classify_status("1", "1.0"), "match");
    assert_eq!(classify_status("1", "2"), "diff");
}

#[test]
fn reads_whole_numbers_as_std_does() {
    for text in TEXTS {
        assert_eq!(parse_i64(text), text.parse::<i64>().ok(), "{text}");
        assert_eq!(
            parse_u32(&to_chars(text)),
            text.parse::<u32>().ok(),
            "{text}"
        );
        let expected = text
            .parse::<i64>()
            .ok()
            .or_else(|| text.parse::<f64>().ok().map(|value| value.round() as i64));
        assert_eq!(parse_integral_display_value(text), expected, "{text}");
    }
    for text in [
        "9223372036854775807",
        "9223372036854775808",
        "-9223372036854775808",
        "-9223372036854775809",
        "4294967295",
        "4294967296",
        "00000000000000000000000000000000000000007",
        "2.5",
        "-2.5",
    ] {
        assert_eq!(parse_i64(text), text.parse::<i64>().ok(), "{text}");
        assert_eq!(
            parse_u32(&to_chars(text)),
            text.parse::<u32>().ok(),
            "{text}"
        );
    }
    assert_eq!(parse_integral_display_value("-2.5"), Some(-3));
    assert_eq!(parse_integral_display_value("nan"), Some(0));
    assert_eq!(int_text(i64::MIN), i64::MIN.to_string());
    assert_eq!(decimal_text(u128::MAX), u128::MAX.to_string());
}

#[test]
fn knows_white_space_as_std_does() {
    for code in 0..0x11_0000u32 {
        if let Some(c) = char::from_u32(code) {
            assert_eq!(space(c), c.is_whitespace(), "{code:#x}");
        }
    }
}

#[test]
fn multiplies_large_numbers() {
    let mut n = Natural::from_u64(1);
    n.times_pow10(40);
    let mut m = Natural::from_u64(1);
    for _ in 0..40 {
        m.times_plus(10, 0);
    }
    assert!(matches!(
        n.order(&m),
        px4_param_audit::natural::Order::Same
    ));
}

fn plain_ccast(value: f32, min: i64, max: i64) -> Option<i64> {
    if !value.is_finite() {
        return None;
    }
    let rounded = value.round();
    if (value - rounded).abs() > 0.0001 {
        return None;
    }
    let integer = rounded as i64;
    let again = integer as f32;
    let checked = again.round() as i64;
    (checked >= min && checked <= max).then_some(integer)
}

const RANGES: [(MavParamType, i64, i64); 6] = [
    (MavParamType::Uint8, 0, 255),
    (MavParamType::Int8, -128, 127),
    (MavParamType::Uint16, 0, 65535),
    (MavParamType::Int16, -32768, 32767),
    (MavParamType::Uint32, 0, 4_294_967_295),
    (MavParamType::Int32, -2_147_483_648, 2_147_483_647),
];

#[test]
fn decodes_integers_as_the_protocol_says() {
    let mut random = Random(0x5555_aaaa_1234_4321);
    for i in 0..600u32 {
        let value = match i % 3 {
            0 => f32::from_bits(random.next() as u32),
            1 => (random.next() as i16) as f32,
            _ => (random.next() as i32) as f32 + 0.00004,
        };
        let real = Real32 {
            bits: value.to_bits(),
        };
        for (t, min, max) in RANGES {
            assert_eq!(
                decode_integer_ccast(real, t),
                plain_ccast(value, min, max),
                "{value} {t:?}"
            );
        }
        let bits = value.to_bits();
        assert_eq!(
            decode_integer_bytewise(real, MavParamType::Uint8),
            Some((bits & 0xff) as i64)
        );
        assert_eq!(
            decode_integer_bytewise(real, MavParamType::Int8),
            Some((bits as u8) as i8 as i64)
        );
        assert_eq!(
            decode_integer_bytewise(real, MavParamType::Uint16),
            Some((bits & 0xffff) as i64)
        );
        assert_eq!(
            decode_integer_bytewise(real, MavParamType::Int16),
            Some((bits as u16) as i16 as i64)
        );
        assert_eq!(
            decode_integer_bytewise(real, MavParamType::Uint32),
            Some(bits as i64)
        );
        assert_eq!(
            decode_integer_bytewise(real, MavParamType::Int32),
            Some(bits as i32 as i64)
        );
        assert_eq!(decode_integer_bytewise(real, MavParamType::Real32), None);
    }
}

#[test]
fn what_is_written_is_read_back() {
    for (t, min, max) in RANGES {
        for integer in [min, max, 0, 1, min / 2, max / 2, 100] {
            let value = integer as f32;
            let real = Real32 {
                bits: value.to_bits(),
            };
            for encoding in [ParamEncoding::CCast, ParamEncoding::Bytewise] {
                match encode_param_set_value(real, t, encoding) {
                    Ok(sent) => assert_eq!(
                        decode_integer_value(sent, t, encoding),
                        Some(value.round() as i64)
                    ),
                    Err(error) => assert!(matches!(error, IntegerError::Outside { .. })),
                }
            }
        }
    }
}

#[test]
fn refuses_numbers_that_do_not_fit() {
    let real = |value: f32| Real32 {
        bits: value.to_bits(),
    };
    assert_eq!(
        checked_integer(real(f32::NAN), 0, 255),
        Err(IntegerError::NotFinite)
    );
    assert_eq!(
        checked_integer(real(7.5), 0, 255),
        Err(IntegerError::NotWhole { value: real(7.5) })
    );
    assert_eq!(
        checked_integer(real(256.0), 0, 255),
        Err(IntegerError::Outside {
            integer: 256,
            min: 0,
            max: 255
        })
    );
    assert_eq!(checked_integer(real(255.0), 0, 255), Ok(255));
    assert_eq!(
        px4_param_audit::param::checked_integer_for_type(real(1.0), MavParamType::Real64),
        Err(IntegerError::NotIntegerType {
            mav_type: MavParamType::Real64
        })
    );
    assert_eq!(
        encode_param_set_value(real(7.5), MavParamType::Real32, ParamEncoding::CCast),
        Ok(real(7.5))
    );
}

#[test]
fn reads_values_to_write() {
    let real = |value: f32| Real32 {
        bits: value.to_bits(),
    };
    assert_eq!(parse_write_value("0.25"), Ok(real(0.25)));
    assert_eq!(parse_write_value("-3"), Ok(real(-3.0)));
    assert_eq!(
        parse_write_value("<unknown>"),
        Err(WriteValueError::NotSingle)
    );
    assert_eq!(parse_write_value("1,2"), Err(WriteValueError::NotSingle));
    assert_eq!(parse_write_value(""), Err(WriteValueError::Empty));
    assert_eq!(parse_write_value("GPS1"), Err(WriteValueError::NotANumber));
}

#[test]
fn tests_bits() {
    assert!(bit_enabled(5, 0));
    assert!(!bit_enabled(5, 1));
    assert!(bit_enabled(5, 2));
    assert!(bit_enabled(-1, 62));
    assert!(!bit_enabled(-1, 63));
    assert!(!bit_enabled(-1, -1));
}

#[test]
fn scores_whole_numbers_for_the_cast_encoding() {
    let param = ParamValue {
        value: Real32 {
            bits: 5.0f32.to_bits(),
        },
        mav_type: MavParamType::Int32,
        encoding: ParamEncoding::CCast,
    };
    assert_eq!(encoding_scores(&param, None, None), (1, 3));
    let param = ParamValue {
        value: Real32 { bits: 5 },
        ..param
    };
    assert_eq!(encoding_scores(&param, None, None), (3, 3));
}
