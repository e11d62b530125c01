//! Parameter values as MAVLink carries them: types, encodings, decoding and display.

use vstd::arithmetic::power2::pow2;
use vstd::prelude::*;

use crate::ieee::{close_reals, real32_of, real64_of, reals_close, saturated, Real32, Real64};
use crate::numeral::{decimal_int, int_of, int_text, parse_i64};
use crate::table::TextMap;
use crate::text::{contains_text, has_text, same_str};

verus! {

/// The type that MAVLink reports for a parameter.
#[derive(Clone, Copy, Debug, PartialEq, Eq, Structural)]
pub enum MavParamType {
    /// 8-bit unsigned integer.
    Uint8,
    /// 8-bit signed integer.
    Int8,
    /// 16-bit unsigned integer.
    Uint16,
    /// 16-bit signed integer.
    Int16,
    /// 32-bit unsigned integer.
    Uint32,
    /// 32-bit signed integer.
    Int32,
    /// 64-bit unsigned integer.
    Uint64,
    /// 64-bit signed integer.
    Int64,
    /// 32-bit real number.
    Real32,
    /// 64-bit real number.
    Real64,
}

/// How an integer travels in the four bytes of a parameter value.
#[derive(Clone, Copy, Debug, PartialEq, Eq, Structural)]
pub enum ParamEncoding {
    /// As the real number equal to the integer.
    CCast,
    /// As the bytes of the integer.
    Bytewise,
}

/// A parameter value as it was received.
#[derive(Clone, Copy, Debug, PartialEq, Eq, Structural)]
pub struct ParamValue {
    /// The four bytes, read as a real number.
    pub value: Real32,
    /// The reported type.
    pub mav_type: MavParamType,
    /// The encoding of integers.
    pub encoding: ParamEncoding,
}

impl View for ParamValue {
    type V = ParamValue;

    open spec fn view(&self) -> ParamValue {
        *self
    }
}

/// Why a number does not serve as an integer parameter value.
#[derive(Clone, Copy, Debug, PartialEq, Eq, Structural)]
pub enum IntegerError {
    /// The number is an infinity or a NaN.
    NotFinite,
    /// The number has a fraction.
    NotWhole {
        /// The number.
        value: Real32,
    },
    /// The integer lies outside of the range of its type.
    Outside {
        /// The integer.
        integer: i64,
        /// The smallest integer of the type.
        min: i64,
        /// The largest integer of the type.
        max: i64,
    },
    /// The type is no integer type.
    NotIntegerType {
        /// The type.
        mav_type: MavParamType,
    },
}

/// The range of an integer type that fits the four bytes of a parameter value.
pub open spec fn type_range(t: MavParamType) -> Option<(i64, i64)> {
    match t {
        MavParamType::Uint8 => Some((0, 0xff)),
        MavParamType::Int8 => Some((i8::MIN as i64, 0x7f)),
        MavParamType::Uint16 => Some((0, 0xffff)),
        MavParamType::Int16 => Some((i16::MIN as i64, 0x7fff)),
        MavParamType::Uint32 => Some((0, 0xffff_ffff)),
        MavParamType::Int32 => Some((i32::MIN as i64, 0x7fff_ffff)),
        _ => None,
    }
}

/// Whether values of the type are integers of at most four bytes.
pub open spec fn is_integer(t: MavParamType) -> bool {
    type_range(t) is Some
}

/// Two to the number of bits of an integer type.
pub open spec fn type_modulus(t: MavParamType) -> int {
    match t {
        MavParamType::Uint8 | MavParamType::Int8 => 0x100,
        MavParamType::Uint16 | MavParamType::Int16 => 0x1_0000,
        _ => 0x1_0000_0000,
    }
}

/// Within 2^-23 of a whole number.
pub open spec fn is_whole(v: Real32) -> bool {
    v.off_whole() <= pow2(126)
}

/// Within a ten-thousandth of a whole number, the ten-thousandth taken in 32 bits.
pub open spec fn is_nearly_whole(v: Real32) -> bool {
    v.off_whole() <= 0xd1_b717 * pow2(112)
}

/// The nearest 64-bit integer to a number.
pub open spec fn integer_of(v: Real32) -> i64 {
    saturated(v.rounded(), i64::MIN as int, i64::MAX as int) as i64
}

/// The integer that a number stands for, within `min..=max`.
pub open spec fn checked(v: Real32, min: i64, max: i64) -> Result<i64, IntegerError> {
    if !v.finite() {
        Err(IntegerError::NotFinite)
    } else if !is_whole(v) {
        Err(IntegerError::NotWhole { value: v })
    } else if integer_of(v) < min || integer_of(v) > max {
        Err(IntegerError::Outside { integer: integer_of(v), min, max })
    } else {
        Ok(integer_of(v))
    }
}

/// The integer of the given type that a number stands for.
pub open spec fn checked_for_type(v: Real32, t: MavParamType) -> Result<i64, IntegerError> {
    match type_range(t) {
        Some((min, max)) => checked(v, min, max),
        None => Err(IntegerError::NotIntegerType { mav_type: t }),
    }
}

/// What is sent to set a parameter of the type to a number.
pub open spec fn encoded(v: Real32, t: MavParamType, e: ParamEncoding) -> Result<
    Real32,
    IntegerError,
> {
    if !is_integer(t) {
        Ok(v)
    } else {
        match checked_for_type(v, t) {
            Ok(i) => match e {
                ParamEncoding::CCast => Ok(v),
                ParamEncoding::Bytewise => Ok(
                    Real32 { bits: (i as int % type_modulus(t)) as u32 },
                ),
            },
            Err(x) => Err(x),
        }
    }
}

/// The integer that a real number stands for.
pub open spec fn decoded_ccast(v: Real32, t: MavParamType) -> Option<i64> {
    match type_range(t) {
        Some((min, max)) => if v.finite() && is_nearly_whole(v) && min <= integer_of(v) <= max {
            Some(integer_of(v))
        } else {
            None
        },
        None => None,
    }
}

/// The integer whose bytes were sent.
pub open spec fn decoded_bytewise(v: Real32, t: MavParamType) -> Option<i64> {
    match type_range(t) {
        Some((min, max)) => {
            let low = v.bits as int % type_modulus(t);
            Some(
                (if low > max {
                    low - type_modulus(t)
                } else {
                    low
                }) as i64,
            )
        },
        None => None,
    }
}

/// The integer that was sent in the given encoding.
pub open spec fn decoded(v: Real32, t: MavParamType, e: ParamEncoding) -> Option<i64> {
    match e {
        ParamEncoding::CCast => decoded_ccast(v, t),
        ParamEncoding::Bytewise => decoded_bytewise(v, t),
    }
}

/// How a parameter value is shown.
pub open spec fn shown(p: ParamValue) -> Seq<char> {
    match decoded(p.value, p.mav_type, p.encoding) {
        Some(i) => decimal_int(i as int),
        None => p.value.short_text(),
    }
}

/// Whether two shown values agree: as numbers where both are numbers, as texts otherwise.
pub open spec fn equivalent(a: Seq<char>, b: Seq<char>) -> bool {
    match (real64_of(a), real64_of(b)) {
        (Some(x), Some(y)) => close_reals(x, y),
        _ => a == b,
    }
}

/// The status of a shown value against its baseline.
pub open spec fn status_of(current: Seq<char>, baseline: Seq<char>) -> Seq<char> {
    if baseline == "<unknown>"@ || current == "<missing>"@ {
        "unknown"@
    } else if equivalent(current, baseline) {
        "match"@
    } else {
        "diff"@
    }
}

/// The encoding in which a value of the type is written.
pub open spec fn write_encoding(t: MavParamType, integer_encoding: ParamEncoding) -> ParamEncoding {
    if is_integer(t) {
        integer_encoding
    } else {
        ParamEncoding::CCast
    }
}

/// The whole number that a shown value denotes.
pub open spec fn integral_of(s: Seq<char>) -> Option<i64> {
    match int_of(s, i64::MIN as int, i64::MAX as int) {
        Some(i) => Some(i as i64),
        None => match real64_of(s) {
            Some(x) => Some(x.as_i64() as i64),
            None => None,
        },
    }
}

/// The range of an integer type, where it is one.
fn range_of(t: MavParamType) -> (r: Option<(i64, i64)>)
    ensures
        r == type_range(t),
{
    match t {
        MavParamType::Uint8 => Some((0, 0xff)),
        MavParamType::Int8 => Some((-0x80, 0x7f)),
        MavParamType::Uint16 => Some((0, 0xffff)),
        MavParamType::Int16 => Some((-0x8000, 0x7fff)),
        MavParamType::Uint32 => Some((0, 0xffff_ffff)),
        MavParamType::Int32 => Some((-0x8000_0000, 0x7fff_ffff)),
        _ => None,
    }
}

/// Whether values of the type are integers of at most four bytes.
pub fn is_integer_param_type(t: MavParamType) -> (r: bool)
    ensures
        r == is_integer(t),
{
    range_of(t).is_some()
}

/// The integer that a number stands for, within `min..=max`.
pub fn checked_integer(v: Real32, min: i64, max: i64) -> (r: Result<i64, IntegerError>)
    ensures
        r == checked(v, min, max),
{
    if !v.is_finite() {
        return Err(IntegerError::NotFinite);
    }
    proof {
        vstd::arithmetic::power2::lemma2_to64();
        assert(1 * pow2(126) == pow2(126));
    }
    if !v.near_whole(1, 126) {
        return Err(IntegerError::NotWhole { value: v });
    }
    let integer = v.to_i64();
    if integer < min || integer > max {
        return Err(IntegerError::Outside { integer, min, max });
    }
    Ok(integer)
}

/// The integer of the given type that a number stands for.
pub fn checked_integer_for_type(v: Real32, t: MavParamType) -> (r: Result<i64, IntegerError>)
    ensures
        r == checked_for_type(v, t),
{
    match range_of(t) {
        Some((min, max)) => checked_integer(v, min, max),
        None => Err(IntegerError::NotIntegerType { mav_type: t }),
    }
}

/// What is sent to set a parameter of the type to a number.
pub fn encode_param_set_value(v: Real32, t: MavParamType, e: ParamEncoding) -> (r: Result<
    Real32,
    IntegerError,
>)
    ensures
        r == encoded(v, t, e),
{
    if !is_integer_param_type(t) {
        return Ok(v);
    }
    match checked_integer_for_type(v, t) {
        Ok(i) => match e {
            ParamEncoding::CCast => Ok(v),
            ParamEncoding::Bytewise => {
                let modulus: i64 = match t {
                    MavParamType::Uint8 | MavParamType::Int8 => 0x100,
                    MavParamType::Uint16 | MavParamType::Int16 => 0x1_0000,
                    _ => 0x1_0000_0000,
                };
                let low: i64 = if i < 0 {
                    i + modulus
                } else {
                    i
                };
                proof {
                    vstd::arithmetic::div_mod::lemma_small_mod(low as nat, modulus as nat);
                    if i < 0 {
                        vstd::arithmetic::div_mod::lemma_mod_add_multiples_vanish(
                            i as int,
                            modulus as int,
                        );
                    }
                }
                Ok(Real32 { bits: low as u32 })
            },
        },
        Err(x) => Err(x),
    }
}

/// The integer that a real number stands for.
pub fn decode_integer_ccast(v: Real32, t: MavParamType) -> (r: Option<i64>)
    ensures
        r == decoded_ccast(v, t),
{
    if !v.is_finite() {
        return None;
    }
    if !v.near_whole(0xd1_b717, 112) {
        return None;
    }
    let integer = v.to_i64();
    match range_of(t) {
        Some((min, max)) => if min <= integer && integer <= max {
            Some(integer)
        } else {
            None
        },
        None => None,
    }
}

/// The integer whose bytes were sent.
pub fn decode_integer_bytewise(v: Real32, t: MavParamType) -> (r: Option<i64>)
    ensures
        r == decoded_bytewise(v, t),
{
    let bits = v.bits;
    match t {
        MavParamType::Uint8 => Some((bits % 0x100) as i64),
        MavParamType::Int8 => {
            let low = (bits % 0x100) as i64;
            Some(
                if low > 0x7f {
                    low - 0x100
                } else {
                    low
                },
            )
        },
        MavParamType::Uint16 => Some((bits % 0x1_0000) as i64),
        MavParamType::Int16 => {
            let low = (bits % 0x1_0000) as i64;
            Some(
                if low > 0x7fff {
                    low - 0x1_0000
                } else {
                    low
                },
            )
        },
        MavParamType::Uint32 => Some(bits as i64),
        MavParamType::Int32 => {
            let low = bits as i64;
            Some(
                if low > 0x7fff_ffff {
                    low - 0x1_0000_0000
                } else {
                    low
                },
            )
        },
        _ => None,
    }
}

/// The integer that was sent in the given encoding.
pub fn decode_integer_value(v: Real32, t: MavParamType, e: ParamEncoding) -> (r: Option<i64>)
    ensures
        r == decoded(v, t, e),
{
    match e {
        ParamEncoding::CCast => decode_integer_ccast(v, t),
        ParamEncoding::Bytewise => decode_integer_bytewise(v, t),
    }
}

/// Writes a real number with up to six decimals.
pub fn format_float_param(v: Real32) -> (r: String)
    ensures
        r@ == v.short_text(),
{
    v.to_text()
}

/// Writes a parameter value: an integer where it is one, else a real number.
pub fn format_param(p: &ParamValue) -> (r: String)
    ensures
        r@ == shown(*p),
{
    if is_integer_param_type(p.mav_type) {
        match decode_integer_value(p.value, p.mav_type, p.encoding) {
            Some(i) => return int_text(i),
            None => {},
        }
    }
    format_float_param(p.value)
}

/// Whether two shown values agree.
pub fn values_equivalent(a: &str, b: &str) -> (r: bool)
    ensures
        r == equivalent(a@, b@),
{
    match (Real64::parse(a), Real64::parse(b)) {
        (Some(x), Some(y)) => reals_close(&x, &y),
        _ => same_str(a, b),
    }
}

/// The status of a shown value against its baseline.
pub fn classify_status(current: &str, baseline: &str) -> (r: String)
    ensures
        r@ == status_of(current@, baseline@),
{
    if same_str(baseline, "<unknown>") || same_str(current, "<missing>") {
        return String::from_str("unknown");
    }
    if values_equivalent(current, baseline) {
        String::from_str("match")
    } else {
        String::from_str("diff")
    }
}

/// The encoding in which a value of the type is written.
pub fn write_encoding_for_type(t: MavParamType, integer_encoding: ParamEncoding) -> (r:
    ParamEncoding)
    ensures
        r == write_encoding(t, integer_encoding),
{
    if is_integer_param_type(t) {
        integer_encoding
    } else {
        ParamEncoding::CCast
    }
}

/// The whole number that a shown value denotes.
pub fn parse_integral_display_value(s: &str) -> (r: Option<i64>)
    ensures
        r == integral_of(s@),
{
    match parse_i64(s) {
        Some(i) => Some(i),
        None => match Real64::parse(s) {
            Some(x) => Some(x.to_i64()),
            None => None,
        },
    }
}

/// Whether a bit of a value is set; bits from 63 on count as clear.
pub open spec fn bit_set(value: i64, bit: i64) -> bool {
    0 <= bit < 63 && (value & (1i64 << bit)) != 0
}

/// Whether a bit of a value is set.
pub fn bit_enabled(value: i64, bit: i64) -> (r: bool)
    ensures
        r == bit_set(value, bit),
{
    if bit < 0 || bit >= 63 {
        return false;
    }
    (value & (1i64 << bit)) != 0
}

/// Why a text does not serve as a value to write.
#[derive(Clone, Copy, Debug, PartialEq, Eq, Structural)]
pub enum WriteValueError {
    /// The text is the mark of an unknown value or a list.
    NotSingle,
    /// The text is empty.
    Empty,
    /// The text is no number.
    NotANumber,
}

/// The number that a text gives to write.
pub open spec fn write_value(s: Seq<char>) -> Result<Real32, WriteValueError> {
    if s == "<unknown>"@ || contains_text(s, ","@) {
        Err(WriteValueError::NotSingle)
    } else {
        match real32_of(s) {
            Some(x) => Ok(x),
            None => if s.len() == 0 {
                Err(WriteValueError::Empty)
            } else {
                Err(WriteValueError::NotANumber)
            },
        }
    }
}

/// Reads the number to write.
pub fn parse_write_value(s: &str) -> (r: Result<Real32, WriteValueError>)
    ensures
        r == write_value(s@),
{
    if same_str(s, "<unknown>") || has_text(s, ",") {
        return Err(WriteValueError::NotSingle);
    }
    match Real32::parse(s) {
        Some(x) => Ok(x),
        None => if s.is_empty() {
            Err(WriteValueError::Empty)
        } else {
            Err(WriteValueError::NotANumber)
        },
    }
}

/// Why a text does not serve as a value to write, in words.
pub open spec fn write_value_text(e: WriteValueError, value: Seq<char>) -> Seq<char> {
    match e {
        WriteValueError::NotSingle => "not a single numeric value: "@ + value,
        WriteValueError::Empty => "cannot parse float from empty string"@,
        WriteValueError::NotANumber => "invalid float literal"@,
    }
}

/// Why a text does not serve as a value to write, in words.
pub fn write_value_message(e: WriteValueError, value: &str) -> (r: String)
    ensures
        r@ == write_value_text(e, value@),
{
    match e {
        WriteValueError::NotSingle => {
            let mut out = String::from_str("not a single numeric value: ");
            out.append(value);
            out
        },
        WriteValueError::Empty => String::from_str("cannot parse float from empty string"),
        WriteValueError::NotANumber => String::from_str("invalid float literal"),
    }
}

/// The airframe that a received parameter value names.
pub open spec fn autostart_of(p: ParamValue) -> Option<i32> {
    if is_integer(p.mav_type) {
        match decoded(p.value, p.mav_type, p.encoding) {
            Some(i) => if i32::MIN <= i <= i32::MAX {
                Some(i as i32)
            } else {
                None
            },
            None => None,
        }
    } else if p.value.finite() && is_nearly_whole(p.value) {
        Some(saturated(p.value.rounded(), i32::MIN as int, i32::MAX as int) as i32)
    } else {
        None
    }
}

/// The airframe that the device reports in `SYS_AUTOSTART`.
pub fn decoded_sys_autostart(params: &TextMap<ParamValue>) -> (r: Option<i32>)
    ensures
        r == (if params@.dom().contains("SYS_AUTOSTART"@) {
            autostart_of(params@["SYS_AUTOSTART"@])
        } else {
            None
        }),
{
    match params.get("SYS_AUTOSTART") {
        Some(p) => {
            if is_integer_param_type(p.mav_type) {
                match decode_integer_value(p.value, p.mav_type, p.encoding) {
                    Some(i) => if i32::MIN as i64 <= i && i <= i32::MAX as i64 {
                        Some(i as i32)
                    } else {
                        None
                    },
                    None => None,
                }
            } else if p.value.is_finite() && p.value.near_whole(0xd1_b717, 112) {
                let i = p.value.to_i64();
                Some(
                    if i < i32::MIN as i64 {
                        i32::MIN
                    } else if i > i32::MAX as i64 {
                        i32::MAX
                    } else {
                        i as i32
                    },
                )
            } else {
                None
            }
        },
        None => None,
    }
}

/// Reading back what was written gives the integer that the written number stands for.
pub proof fn law_write_then_read(v: Real32, t: MavParamType, e: ParamEncoding)
    requires
        is_integer(t),
        encoded(v, t, e) is Ok,
    ensures
        decoded(encoded(v, t, e)->Ok_0, t, e) == Some(integer_of(v)),
        integer_of(v) == v.rounded(),
{
    vstd::arithmetic::power2::lemma_pow2_adds(14, 112);
    vstd::arithmetic::power2::lemma2_to64();
    vstd::arithmetic::power2::lemma_pow2_pos(112);
    let i = integer_of(v) as int;
    let m = type_modulus(t);
    vstd::arithmetic::div_mod::lemma_mod_bound(i, m);
    if i < 0 {
        vstd::arithmetic::div_mod::lemma_mod_add_multiples_vanish(i, m);
        vstd::arithmetic::div_mod::lemma_small_mod((i + m) as nat, m as nat);
    } else {
        vstd::arithmetic::div_mod::lemma_small_mod(i as nat, m as nat);
    }
}

} // verus!
