//! Writing a value: what is sent, which answer confirms it, and what is said of it.

use vstd::prelude::*;

use crate::collect::{ReceivedParam, ReceivedView};
use crate::ieee::Real32;
use crate::model::{WriteRequest, WriteView};
use crate::numeral::{decimal, decimal_int, decimal_text, int_text};
use crate::param::{
    encode_param_set_value, encoded, equivalent, format_param, shown, values_equivalent,
    IntegerError, MavParamType, ParamEncoding, ParamValue,
};
use crate::text::{is_str, same_str, to_chars, trim, trimmed};
use crate::vehicle::VehicleIdentity;

verus! {

/// Whether a value that the device reports confirms a write: shown as the written type, it agrees
/// with the number that was to be written.
pub open spec fn confirms(write: WriteView, confirmed: ParamValue) -> bool {
    equivalent(
        shown(
            ParamValue {
                value: confirmed.value,
                mav_type: write.mav_type,
                encoding: write.encoding,
            },
        ),
        shown(
            ParamValue {
                value: write.value,
                mav_type: write.mav_type,
                encoding: ParamEncoding::CCast,
            },
        ),
    )
}

/// Whether a value that the device reports confirms a write.
pub fn write_confirmation_matches(write: &WriteRequest, confirmed: &ParamValue) -> (r: bool)
    ensures
        r == confirms(write@, *confirmed),
{
    let reported = format_param(
        &ParamValue {
            value: confirmed.value,
            mav_type: write.mav_type,
            encoding: write.encoding,
        },
    );
    let expected = format_param(
        &ParamValue {
            value: write.value,
            mav_type: write.mav_type,
            encoding: ParamEncoding::CCast,
        },
    );
    values_equivalent(reported.as_str(), expected.as_str())
}

/// The value that confirms a write, if the parameter does.
pub open spec fn confirmation_of(write: WriteView, param: ReceivedView) -> Option<ParamValue> {
    let value = ParamValue {
        value: param.value,
        mav_type: param.mav_type,
        encoding: write.encoding,
    };
    if param.name == write.name && confirms(write, value) {
        Some(value)
    } else {
        None
    }
}

/// The value that confirms a write, if a received parameter does: it has the name of the written
/// one and its value.
pub fn param_confirmation(write: &WriteRequest, param: &ReceivedParam) -> (r: Option<ParamValue>)
    ensures
        r == confirmation_of(write@, param@),
{
    if !same_str(param.name.as_str(), write.name.as_str()) {
        return None;
    }
    let value = ParamValue {
        value: param.value,
        mav_type: param.mav_type,
        encoding: write.encoding,
    };
    if write_confirmation_matches(write, &value) {
        Some(value)
    } else {
        None
    }
}

/// A request to the device to set a parameter.
#[derive(Debug)]
pub struct ParamSet {
    /// The system of the device.
    pub target_system: u8,
    /// The component of the device.
    pub target_component: u8,
    /// The name of the parameter.
    pub param_id: String,
    /// The value to send.
    pub param_value: Real32,
    /// The type of the parameter.
    pub param_type: MavParamType,
}

/// The request that carries out a write, or why the number does not fit the type.
pub fn send_param_set(identity: &VehicleIdentity, write: &WriteRequest) -> (r: Result<
    ParamSet,
    IntegerError,
>)
    ensures
        match encoded(write.value, write.mav_type, write.encoding) {
            Ok(value) => r matches Ok(set) && set.target_system == identity.system_id
                && set.target_component == identity.component_id && set.param_id@ == write@.name
                && set.param_value == value && set.param_type == write.mav_type,
            Err(e) => r == Err::<ParamSet, IntegerError>(e),
        },
{
    match encode_param_set_value(write.value, write.mav_type, write.encoding) {
        Ok(param_value) => Ok(
            ParamSet {
                target_system: identity.system_id,
                target_component: identity.component_id,
                param_id: write.name.clone(),
                param_value,
                param_type: write.mav_type,
            },
        ),
        Err(e) => Err(e),
    }
}

/// The name of a type in messages.
pub open spec fn type_text(t: MavParamType) -> Seq<char> {
    match t {
        MavParamType::Uint8 => "MAV_PARAM_TYPE_UINT8"@,
        MavParamType::Int8 => "MAV_PARAM_TYPE_INT8"@,
        MavParamType::Uint16 => "MAV_PARAM_TYPE_UINT16"@,
        MavParamType::Int16 => "MAV_PARAM_TYPE_INT16"@,
        MavParamType::Uint32 => "MAV_PARAM_TYPE_UINT32"@,
        MavParamType::Int32 => "MAV_PARAM_TYPE_INT32"@,
        MavParamType::Uint64 => "MAV_PARAM_TYPE_UINT64"@,
        MavParamType::Int64 => "MAV_PARAM_TYPE_INT64"@,
        MavParamType::Real32 => "MAV_PARAM_TYPE_REAL32"@,
        MavParamType::Real64 => "MAV_PARAM_TYPE_REAL64"@,
    }
}

/// The name of a type in messages.
pub fn param_type_text(t: MavParamType) -> (r: &'static str)
    ensures
        r@ == type_text(t),
{
    match t {
        MavParamType::Uint8 => "MAV_PARAM_TYPE_UINT8",
        MavParamType::Int8 => "MAV_PARAM_TYPE_INT8",
        MavParamType::Uint16 => "MAV_PARAM_TYPE_UINT16",
        MavParamType::Int16 => "MAV_PARAM_TYPE_INT16",
        MavParamType::Uint32 => "MAV_PARAM_TYPE_UINT32",
        MavParamType::Int32 => "MAV_PARAM_TYPE_INT32",
        MavParamType::Uint64 => "MAV_PARAM_TYPE_UINT64",
        MavParamType::Int64 => "MAV_PARAM_TYPE_INT64",
        MavParamType::Real32 => "MAV_PARAM_TYPE_REAL32",
        MavParamType::Real64 => "MAV_PARAM_TYPE_REAL64",
    }
}

/// The name of an encoding in messages.
pub open spec fn encoding_text(e: ParamEncoding) -> Seq<char> {
    match e {
        ParamEncoding::CCast => "CCast"@,
        ParamEncoding::Bytewise => "Bytewise"@,
    }
}

/// The name of an encoding in messages.
pub fn param_encoding_text(e: ParamEncoding) -> (r: &'static str)
    ensures
        r@ == encoding_text(e),
{
    match e {
        ParamEncoding::CCast => "CCast",
        ParamEncoding::Bytewise => "Bytewise",
    }
}

/// The line on a planned write.
pub open spec fn planned_line(write: WriteView, value: Seq<char>) -> Seq<char> {
    "  "@ + write.name + " = "@ + value + " ("@ + type_text(write.mav_type) + ", "@
        + encoding_text(write.encoding) + ", "@ + write.source + ")"@
}

/// The line on a planned write; `value` is its number as text.
pub fn planned_write_line(write: &WriteRequest, value: &str) -> (r: String)
    ensures
        r@ == planned_line(write@, value@),
{
    let mut out = String::from_str("  ");
    out.append(write.name.as_str());
    out.append(" = ");
    out.append(value);
    out.append(" (");
    out.append(param_type_text(write.mav_type));
    out.append(", ");
    out.append(param_encoding_text(write.encoding));
    out.append(", ");
    out.append(write.source.as_str());
    out.append(")");
    out
}

/// How a plan of writes gets its confirmation.
#[derive(Clone, Copy, Debug, PartialEq, Eq, Structural)]
pub enum Confirmation {
    /// It needs none.
    Given,
    /// It cannot be asked for.
    Refused,
    /// It is asked for.
    Ask,
}

/// How a plan of writes gets its confirmation: it is given in advance, or asked for at a terminal;
/// nothing is written without it.
pub fn confirm_writes(yes: bool, terminal: bool) -> (r: Confirmation)
    ensures
        r == (if yes {
            Confirmation::Given
        } else if terminal {
            Confirmation::Ask
        } else {
            Confirmation::Refused
        }),
{
    if yes {
        Confirmation::Given
    } else if terminal {
        Confirmation::Ask
    } else {
        Confirmation::Refused
    }
}

/// The question before so many writes.
pub open spec fn question_text(count: nat) -> Seq<char> {
    "write "@ + decimal(count) + " parameter(s) to PX4? Type 'yes' to continue: "@
}

/// The question before so many writes.
pub fn write_question(count: usize) -> (r: String)
    ensures
        r@ == question_text(count as nat),
{
    let mut out = String::from_str("write ");
    let n = decimal_text(count as u128);
    out.append(n.as_str());
    out.append(" parameter(s) to PX4? Type 'yes' to continue: ");
    out
}

/// Whether an answer is a yes.
pub fn answer_is_yes(answer: &str) -> (r: bool)
    ensures
        r == (trimmed(answer@) == "yes"@),
{
    let c = to_chars(answer);
    is_str(trim(c.as_slice()), "yes")
}

/// The line on a confirmed write.
pub open spec fn set_line(name: Seq<char>, confirmed: ParamValue) -> Seq<char> {
    "set "@ + name + " = "@ + shown(confirmed)
}

/// The line on a confirmed write.
pub fn written_line(name: &str, confirmed: &ParamValue) -> (r: String)
    ensures
        r@ == set_line(name@, *confirmed),
{
    let mut out = String::from_str("set ");
    out.append(name);
    out.append(" = ");
    let value = format_param(confirmed);
    out.append(value.as_str());
    out
}

/// Why a number does not fit an integer type, in words.
pub open spec fn integer_error_text(e: IntegerError, value: Seq<char>) -> Seq<char> {
    match e {
        IntegerError::NotFinite => "integer parameter value must be finite"@,
        IntegerError::NotWhole { .. } => "integer parameter value must be whole: "@ + value,
        IntegerError::Outside { integer, min, max } => "integer parameter value "@ + decimal_int(
            integer as int,
        ) + " is outside ["@ + decimal_int(min as int) + ", "@ + decimal_int(max as int) + "]"@,
        IntegerError::NotIntegerType { mav_type } => "not an integer MAVLink parameter type: "@
            + type_text(mav_type),
    }
}

/// Why a number does not fit an integer type, in words; `value` is the number as text.
pub fn integer_error_message(e: &IntegerError, value: &str) -> (r: String)
    ensures
        r@ == integer_error_text(*e, value@),
{
    match e {
        IntegerError::NotFinite => String::from_str("integer parameter value must be finite"),
        IntegerError::NotWhole { .. } => {
            let mut out = String::from_str("integer parameter value must be whole: ");
            out.append(value);
            out
        },
        IntegerError::Outside { integer, min, max } => {
            let mut out = String::from_str("integer parameter value ");
            let n = int_text(*integer);
            out.append(n.as_str());
            out.append(" is outside [");
            let n = int_text(*min);
            out.append(n.as_str());
            out.append(", ");
            let n = int_text(*max);
            out.append(n.as_str());
            out.append("]");
            out
        },
        IntegerError::NotIntegerType { mav_type } => {
            let mut out = String::from_str("not an integer MAVLink parameter type: ");
            out.append(param_type_text(*mav_type));
            out
        },
    }
}

} // verus!
