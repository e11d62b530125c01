//! What the metadata of a parameter says about its type, its range and its value.

use vstd::prelude::*;

use crate::model::{
    choices, opt_metadata_ref, AuditRow, ChoiceView, MetadataView, ParamChoice, ParamMetadata,
    RowView,
};
use crate::numeral::{decimal_int, int_text};
use crate::param::{bit_enabled, bit_set, integral_of, parse_integral_display_value, MavParamType};
use crate::text::{
    ascii_lowered, from_chars, is_str, join, joined, opt_text, same_str, slice_part, strip_prefixes,
    texts, to_ascii_lower, to_chars, trim, trimmed, without_prefixes,
};

verus! {

/// The most characters that a list of choices takes up.
pub const LIST_WIDTH: usize = 150;

/// `s`, cut to `n` characters if it is longer; three dots show the cut.
pub open spec fn compacted(s: Seq<char>, n: nat) -> Seq<char> {
    if s.len() <= n {
        s
    } else if n <= 3 {
        "..."@
    } else {
        s.take(n - 3) + "..."@
    }
}

/// A choice as `value=label`.
pub open spec fn choice_text(c: ChoiceView) -> Seq<char> {
    decimal_int(c.value as int) + "="@ + c.label
}

/// Choices, each as `value=label`.
pub open spec fn choice_texts(cs: Seq<ChoiceView>) -> Seq<Seq<char>> {
    Seq::new(cs.len(), |i: int| choice_text(cs[i]))
}

/// A list of choices, cut to `n` characters.
pub open spec fn choice_list(cs: Seq<ChoiceView>, n: nat) -> Seq<char> {
    compacted(joined(choice_texts(cs), " | "@), n)
}

/// The choices whose bits are set in `value`.
pub open spec fn active_bits(cs: Seq<ChoiceView>, value: i64) -> Seq<ChoiceView>
    decreases cs.len(),
{
    if cs.len() == 0 {
        cs
    } else if bit_set(value, cs.last().value) {
        active_bits(cs.drop_last(), value).push(cs.last())
    } else {
        active_bits(cs.drop_last(), value)
    }
}

/// The label of the first choice with the given value.
pub open spec fn label_of(cs: Seq<ChoiceView>, value: i64) -> Seq<char>
    decreases cs.len(),
{
    if cs.len() == 0 {
        "unlisted value"@
    } else if cs[0].value == value {
        cs[0].label
    } else {
        label_of(cs.drop_first(), value)
    }
}

/// Whether metadata describe a boolean.
pub open spec fn is_boolean(m: MetadataView) -> bool {
    m.param_type == Some("boolean"@)
}

/// The name of the type, if there is one.
pub open spec fn type_part(m: MetadataView) -> Seq<Seq<char>> {
    match m.param_type {
        Some(t) => seq![t],
        None => seq![],
    }
}

/// The range, as far as it is bounded.
pub open spec fn range_part(m: MetadataView) -> Seq<Seq<char>> {
    match (m.min, m.max) {
        (Some(min), Some(max)) => seq!["range "@ + min + ".."@ + max],
        (Some(min), None) => seq!["min "@ + min],
        (None, Some(max)) => seq!["max "@ + max],
        (None, None) => seq![],
    }
}

/// An optional field behind its name.
pub open spec fn named_part(name: Seq<char>, value: Option<Seq<char>>) -> Seq<Seq<char>> {
    match value {
        Some(v) => seq![name + v],
        None => seq![],
    }
}

/// A note on reboots where one is needed.
pub open spec fn reboot_part(m: MetadataView) -> Seq<Seq<char>> {
    if m.reboot_required {
        seq!["reboot required"@]
    } else {
        seq![]
    }
}

/// The parts of a summary of metadata.
pub open spec fn summary_parts(m: MetadataView) -> Seq<Seq<char>> {
    type_part(m) + range_part(m) + named_part("unit "@, m.unit) + named_part(
        "decimal "@,
        m.decimal,
    ) + reboot_part(m)
}

/// The summary of metadata, if they say anything.
pub open spec fn summary_line(m: MetadataView) -> Option<Seq<char>> {
    if summary_parts(m).len() == 0 {
        None
    } else {
        Some("PX4 metadata: "@ + joined(summary_parts(m), " | "@))
    }
}

/// What the current value means, if the metadata name values and the value is a number.
pub open spec fn current_line(current: Seq<char>, m: MetadataView) -> Option<Seq<char>> {
    match integral_of(current) {
        None => None,
        Some(value) => if m.bits.len() > 0 {
            let active = active_bits(m.bits, value);
            Some(
                "Active bits for "@ + current + ": "@ + (if active.len() == 0 {
                    "none"@
                } else {
                    choice_list(active, LIST_WIDTH as nat)
                }),
            )
        } else if m.values.len() > 0 {
            Some("Current meaning: "@ + decimal_int(value as int) + " = "@ + label_of(m.values, value))
        } else if is_boolean(m) {
            Some(
                "Current meaning: "@ + decimal_int(value as int) + " = "@ + (if value == 0 {
                    "Disabled"@
                } else {
                    "Enabled"@
                }),
            )
        } else {
            None
        },
    }
}

/// The named values or bits, if there are any.
pub open spec fn choices_line(m: MetadataView) -> Option<Seq<char>> {
    if m.bits.len() > 0 {
        Some("Bits: "@ + choice_list(m.bits, LIST_WIDTH as nat))
    } else if m.values.len() > 0 {
        Some("Values: "@ + choice_list(m.values, LIST_WIDTH as nat))
    } else if is_boolean(m) {
        Some("Values: 0=Disabled | 1=Enabled"@)
    } else {
        None
    }
}

/// Whether the metadata of a row name values or bits.
pub open spec fn has_choices(row: RowView) -> bool {
    match row.metadata {
        Some(m) => m.bits.len() > 0 || m.values.len() > 0 || is_boolean(m),
        None => false,
    }
}

/// The name of a type without its case, the space around it and the prefixes of its constants.
pub open spec fn plain_type_name(t: Seq<char>) -> Seq<char> {
    without_prefixes(
        without_prefixes(trimmed(ascii_lowered(t)), "param_type_"@),
        "mav_param_type_"@,
    )
}

/// The type that metadata give a parameter, if they name one that is known.
pub open spec fn type_of_metadata(m: MetadataView) -> Option<MavParamType> {
    match m.param_type {
        None => None,
        Some(t) => {
            let name = plain_type_name(t);
            if name == "uint8"@ {
                Some(MavParamType::Uint8)
            } else if name == "int8"@ {
                Some(MavParamType::Int8)
            } else if name == "uint16"@ {
                Some(MavParamType::Uint16)
            } else if name == "int16"@ {
                Some(MavParamType::Int16)
            } else if name == "uint32"@ {
                Some(MavParamType::Uint32)
            } else if name == "int32"@ || name == "enum"@ || name == "bitmask"@ || name
                == "boolean"@ || name == "bool"@ {
                Some(MavParamType::Int32)
            } else if name == "float"@ || name == "real32"@ {
                Some(MavParamType::Real32)
            } else {
                None
            }
        },
    }
}

/// The type under which a parameter is shown and written: the one that the metadata name, but a
/// float only where the device reports a float too.
pub open spec fn effective_type(reported: MavParamType, m: Option<MetadataView>) -> MavParamType {
    match m {
        Some(x) => match type_of_metadata(x) {
            Some(t) => if t != MavParamType::Real32 || reported == MavParamType::Real32 {
                t
            } else {
                reported
            },
            None => reported,
        },
        None => reported,
    }
}

/// Cuts a line to `max_len` characters; three dots show the cut.
pub fn compact_line(s: &str, max_len: usize) -> (r: String)
    ensures
        r@ == compacted(s@, max_len as nat),
{
    let c = to_chars(s);
    if c.len() <= max_len {
        return from_chars(c.as_slice());
    }
    let keep: usize = if max_len <= 3 {
        0
    } else {
        max_len - 3
    };
    let mut out = from_chars(slice_part(c.as_slice(), 0, keep));
    out.append("...");
    assert(c@.subrange(0, keep as int) =~= c@.take(keep as int));
    assert(max_len <= 3 ==> out@ =~= "..."@);
    out
}

fn choice_entry(c: &ParamChoice) -> (r: String)
    ensures
        r@ == choice_text(c@),
{
    let mut out = int_text(c.value);
    out.append("=");
    out.append(c.label.as_str());
    out
}

/// A list of choices, cut to `max_len` characters.
pub fn format_choice_list(list: &[ParamChoice], max_len: usize) -> (r: String)
    ensures
        r@ == choice_list(choices(list@), max_len as nat),
{
    let mut out: Vec<String> = Vec::new();
    for i in 0..list.len()
        invariant
            texts(out@) == choice_texts(choices(list@)).take(i as int),
    {
        let ghost before = out@;
        out.push(choice_entry(&list[i]));
        assert(texts(out@) =~= texts(before).push(choice_text(list@[i as int]@)));
        assert(choice_texts(choices(list@)).take(i + 1) =~= choice_texts(choices(list@)).take(
            i as int,
        ).push(choice_text(list@[i as int]@)));
    }
    assert(choice_texts(choices(list@)).take(list@.len() as int) =~= choice_texts(choices(list@)));
    let all = join(out.as_slice(), " | ");
    compact_line(all.as_str(), max_len)
}

fn names_boolean(m: &ParamMetadata) -> (r: bool)
    ensures
        r == is_boolean(m@),
{
    match &m.param_type {
        Some(t) => same_str(t.as_str(), "boolean"),
        None => false,
    }
}

fn append_part(name: &str, value: &Option<String>, parts: &mut Vec<String>)
    ensures
        texts(final(parts)@) == texts(old(parts)@) + named_part(name@, opt_text(*value)),
{
    let ghost before = parts@;
    if let Some(v) = value {
        let mut s = String::from_str(name);
        s.append(v.as_str());
        parts.push(s);
        assert(texts(parts@) =~= texts(before) + seq![name@ + v@]);
    } else {
        assert(texts(parts@) =~= texts(before) + seq![]);
    }
}

/// A summary of metadata: the type, the range, the unit, the decimals and whether a reboot is
/// needed.
pub fn metadata_summary_line(metadata: &ParamMetadata) -> (r: Option<String>)
    ensures
        opt_text(r) == summary_line(metadata@),
{
    let ghost m = metadata@;
    let mut parts: Vec<String> = Vec::new();
    append_part("", &metadata.param_type, &mut parts);
    proof {
        reveal_strlit("");
        match m.param_type {
            Some(t) => {
                assert(""@ + t =~= t);
            },
            None => {},
        }
        assert(texts(parts@) =~= type_part(m));
    }
    let ghost before = parts@;
    match (&metadata.min, &metadata.max) {
        (Some(min), Some(max)) => {
            let mut s = String::from_str("range ");
            s.append(min.as_str());
            s.append("..");
            s.append(max.as_str());
            parts.push(s);
        },
        (Some(min), None) => {
            let mut s = String::from_str("min ");
            s.append(min.as_str());
            parts.push(s);
        },
        (None, Some(max)) => {
            let mut s = String::from_str("max ");
            s.append(max.as_str());
            parts.push(s);
        },
        (None, None) => {},
    }
    assert(texts(parts@) =~= texts(before) + range_part(m));
    append_part("unit ", &metadata.unit, &mut parts);
    append_part("decimal ", &metadata.decimal, &mut parts);
    let ghost last = parts@;
    if metadata.reboot_required {
        parts.push(String::from_str("reboot required"));
    }
    assert(texts(parts@) =~= texts(last) + reboot_part(m));
    assert(texts(parts@) == summary_parts(m));
    if parts.len() == 0 {
        None
    } else {
        let mut out = String::from_str("PX4 metadata: ");
        let all = join(parts.as_slice(), " | ");
        out.append(all.as_str());
        Some(out)
    }
}

fn active_choices(list: &[ParamChoice], value: i64) -> (r: Vec<ParamChoice>)
    ensures
        choices(r@) == active_bits(choices(list@), value),
{
    let mut out: Vec<ParamChoice> = Vec::new();
    assert(choices(out@) =~= active_bits(choices(list@).take(0), value));
    for i in 0..list.len()
        invariant
            choices(out@) == active_bits(choices(list@).take(i as int), value),
    {
        let ghost before = out@;
        proof {
            assert(choices(list@).take(i + 1).drop_last() =~= choices(list@).take(i as int));
            assert(choices(list@).take(i + 1).last() == list@[i as int]@);
        }
        if bit_enabled(value, list[i].value) {
            out.push(list[i].clone());
            assert(choices(out@) =~= choices(before).push(list@[i as int]@));
        }
    }
    assert(choices(list@).take(list@.len() as int) =~= choices(list@));
    out
}

fn find_label(list: &[ParamChoice], value: i64) -> (r: String)
    ensures
        r@ == label_of(choices(list@), value),
{
    let ghost all = choices(list@);
    assert(all.skip(0) =~= all);
    for i in 0..list.len()
        invariant
            all == choices(list@),
            label_of(all, value) == label_of(all.skip(i as int), value),
    {
        assert(all.skip(i as int)[0] == list@[i as int]@);
        if list[i].value == value {
            return list[i].label.clone();
        }
        assert(all.skip(i as int).drop_first() =~= all.skip(i + 1));
    }
    String::from_str("unlisted value")
}

fn meaning(value: i64, label: &str) -> (r: String)
    ensures
        r@ == "Current meaning: "@ + decimal_int(value as int) + " = "@ + label@,
{
    let mut out = String::from_str("Current meaning: ");
    let n = int_text(value);
    out.append(n.as_str());
    out.append(" = ");
    out.append(label);
    out
}

/// What the current value of a row means: which bits it has, or which choice it is.
pub fn metadata_current_line(row: &AuditRow, metadata: &ParamMetadata) -> (r: Option<String>)
    ensures
        opt_text(r) == current_line(row@.current, metadata@),
{
    if metadata.bits.len() > 0 {
        match parse_integral_display_value(row.current.as_str()) {
            None => None,
            Some(value) => {
                let active = active_choices(metadata.bits.as_slice(), value);
                let list = if active.len() == 0 {
                    String::from_str("none")
                } else {
                    format_choice_list(active.as_slice(), LIST_WIDTH)
                };
                let mut out = String::from_str("Active bits for ");
                out.append(row.current.as_str());
                out.append(": ");
                out.append(list.as_str());
                Some(out)
            },
        }
    } else if metadata.values.len() > 0 {
        match parse_integral_display_value(row.current.as_str()) {
            None => None,
            Some(value) => {
                let label = find_label(metadata.values.as_slice(), value);
                Some(meaning(value, label.as_str()))
            },
        }
    } else if names_boolean(metadata) {
        match parse_integral_display_value(row.current.as_str()) {
            None => None,
            Some(value) => Some(
                meaning(
                    value,
                    if value == 0 {
                        "Disabled"
                    } else {
                        "Enabled"
                    },
                ),
            ),
        }
    } else {
        None
    }
}

/// The named bits or values of metadata.
pub fn metadata_choices_line(metadata: &ParamMetadata) -> (r: Option<String>)
    ensures
        opt_text(r) == choices_line(metadata@),
{
    if metadata.bits.len() > 0 {
        let mut out = String::from_str("Bits: ");
        let list = format_choice_list(metadata.bits.as_slice(), LIST_WIDTH);
        out.append(list.as_str());
        Some(out)
    } else if metadata.values.len() > 0 {
        let mut out = String::from_str("Values: ");
        let list = format_choice_list(metadata.values.as_slice(), LIST_WIDTH);
        out.append(list.as_str());
        Some(out)
    } else if names_boolean(metadata) {
        Some(String::from_str("Values: 0=Disabled | 1=Enabled"))
    } else {
        None
    }
}

/// Whether the metadata of a row name values or bits.
pub fn row_has_metadata_choices(row: &AuditRow) -> (r: bool)
    ensures
        r == has_choices(row@),
{
    match &row.metadata {
        Some(m) => m.bits.len() > 0 || m.values.len() > 0 || names_boolean(m),
        None => false,
    }
}

/// The type that metadata give a parameter, if they name one that is known.
pub fn metadata_mav_type(metadata: &ParamMetadata) -> (r: Option<MavParamType>)
    ensures
        r == type_of_metadata(metadata@),
{
    match &metadata.param_type {
        None => None,
        Some(t) => {
            let c = to_chars(t.as_str());
            let lower = to_ascii_lower(c.as_slice());
            let name = strip_prefixes(
                strip_prefixes(trim(lower.as_slice()), "param_type_"),
                "mav_param_type_",
            );
            if is_str(name, "uint8") {
                Some(MavParamType::Uint8)
            } else if is_str(name, "int8") {
                Some(MavParamType::Int8)
            } else if is_str(name, "uint16") {
                Some(MavParamType::Uint16)
            } else if is_str(name, "int16") {
                Some(MavParamType::Int16)
            } else if is_str(name, "uint32") {
                Some(MavParamType::Uint32)
            } else if is_str(name, "int32") || is_str(name, "enum") || is_str(name, "bitmask")
                || is_str(name, "boolean") || is_str(name, "bool") {
                Some(MavParamType::Int32)
            } else if is_str(name, "float") || is_str(name, "real32") {
                Some(MavParamType::Real32)
            } else {
                None
            }
        },
    }
}

/// The type under which a parameter is shown and written.
pub fn effective_mav_type(reported: MavParamType, metadata: Option<&ParamMetadata>) -> (r:
    MavParamType)
    ensures
        r == effective_type(reported, opt_metadata_ref(metadata)),
{
    match metadata {
        Some(m) => match metadata_mav_type(m) {
            Some(t) => if t != MavParamType::Real32 || reported == MavParamType::Real32 {
                t
            } else {
                reported
            },
            None => reported,
        },
        None => reported,
    }
}

} // verus!
