//! What is read of YAML documents: every field of a definition lands in its own place.

use vstd::prelude::*;

use crate::encoding::integer_range;
use crate::model::{law_sorted_choices, with_value, ChoiceView, MetadataView};
use crate::numeral::decimal_int;
use crate::param_laws::law_decimal_is_read_back;
use crate::text::joined;
use crate::yaml::{
    body_metadata, choices_of, field, item_texts, key_number, listed_choices, scalar_text,
    scan_definition, scan_definitions, scan_entries, scan_items, scan_mapping, scan_port,
    scan_value, untagged, YamlScan, YamlView,
};

verus! {

/// Whether an entry is the first with a text as its key.
pub open spec fn first_with(entries: Seq<(YamlView, YamlView)>, i: int, key: Seq<char>) -> bool {
    &&& 0 <= i < entries.len()
    &&& entries[i].0 == YamlView::Text(key)
    &&& forall|k: int| 0 <= k < i ==> (#[trigger] entries[k]).0 != YamlView::Text(key)
}

/// Whether no entry has a text as its key.
pub open spec fn lacks(entries: Seq<(YamlView, YamlView)>, key: Seq<char>) -> bool {
    forall|k: int| 0 <= k < entries.len() ==> (#[trigger] entries[k]).0 != YamlView::Text(key)
}

/// The value of a key is that of the first entry that has it.
pub proof fn law_field(entries: Seq<(YamlView, YamlView)>, i: int, key: Seq<char>)
    ensures
        first_with(entries, i, key) ==> field(entries, key) == Some(entries[i].1),
        lacks(entries, key) ==> field(entries, key) is None,
    decreases entries.len(),
{
    if entries.len() > 0 {
        let rest = entries.drop_first();
        if first_with(entries, i, key) && i > 0 {
            assert(entries[0].0 != YamlView::Text(key));
            assert forall|k: int| 0 <= k < i - 1 implies (#[trigger] rest[k]).0 != YamlView::Text(
                key,
            ) by {
                assert(entries[k + 1].0 != YamlView::Text(key));
            }
            law_field(rest, i - 1, key);
        }
        if lacks(entries, key) {
            assert(entries[0].0 != YamlView::Text(key));
            assert forall|k: int| 0 <= k < rest.len() implies (#[trigger] rest[k]).0
                != YamlView::Text(key) by {
                assert(entries[k + 1].0 != YamlView::Text(key));
            }
            law_field(rest, i - 1, key);
        }
    }
}

/// A text is itself, a number as it is written, a truth value by its word, and a list by its items
/// with commas between them.
pub proof fn law_scalar_text(s: Seq<char>, integer: Option<i64>, a: YamlView, b: YamlView)
    ensures
        scalar_text(YamlView::Text(s)) == s,
        scalar_text(YamlView::Number { text: s, integer }) == s,
        scalar_text(YamlView::Bool(true)) == "true"@,
        scalar_text(YamlView::Bool(false)) == "false"@,
        scalar_text(YamlView::Sequence(seq![a])) == scalar_text(a),
        scalar_text(YamlView::Sequence(seq![a, b])) == scalar_text(a) + ","@ + scalar_text(b),
{
    let one = YamlView::Sequence(seq![a]);
    assert(item_texts(one) =~= seq![scalar_text(a)]);
    let two = YamlView::Sequence(seq![a, b]);
    let parts = item_texts(two);
    assert(parts =~= seq![scalar_text(a), scalar_text(b)]);
    assert(parts.drop_last() =~= seq![scalar_text(a)]);
    reveal_with_fuel(joined, 3);
}

/// The type, the unit, the least and the greatest value and the decimals of a parameter are the
/// texts behind the keys of these names in its definition.
pub proof fn law_metadata_fields(body: Seq<(YamlView, YamlView)>, i: int)
    ensures
        first_with(body, i, "type"@) ==> body_metadata(body).param_type == Some(
            scalar_text(body[i].1),
        ),
        first_with(body, i, "unit"@) ==> body_metadata(body).unit == Some(scalar_text(body[i].1)),
        first_with(body, i, "min"@) ==> body_metadata(body).min == Some(scalar_text(body[i].1)),
        first_with(body, i, "max"@) ==> body_metadata(body).max == Some(scalar_text(body[i].1)),
        first_with(body, i, "decimal"@) ==> body_metadata(body).decimal == Some(
            scalar_text(body[i].1),
        ),
        lacks(body, "type"@) ==> body_metadata(body).param_type is None,
        lacks(body, "unit"@) ==> body_metadata(body).unit is None,
        lacks(body, "min"@) ==> body_metadata(body).min is None,
        lacks(body, "max"@) ==> body_metadata(body).max is None,
        lacks(body, "decimal"@) ==> body_metadata(body).decimal is None,
{
    law_field(body, i, "type"@);
    law_field(body, i, "unit"@);
    law_field(body, i, "min"@);
    law_field(body, i, "max"@);
    law_field(body, i, "decimal"@);
}

/// A reboot is required where the definition says so with a truth value, and only there.
pub proof fn law_metadata_reboot(body: Seq<(YamlView, YamlView)>, i: int, b: bool)
    ensures
        first_with(body, i, "reboot_required"@) && body[i].1 == YamlView::Bool(b) ==> body_metadata(
            body,
        ).reboot_required == b,
        lacks(body, "reboot_required"@) ==> !body_metadata(body).reboot_required,
{
    law_field(body, i, "reboot_required"@);
}

/// The description of a parameter is the short one.
pub proof fn law_metadata_description(
    body: Seq<(YamlView, YamlView)>,
    i: int,
    entries: Seq<(YamlView, YamlView)>,
    debug: Seq<char>,
    j: int,
)
    requires
        first_with(body, i, "description"@),
        body[i].1 == (YamlView::Mapping { entries, debug }),
    ensures
        first_with(entries, j, "short"@) ==> body_metadata(body).short_description == Some(
            scalar_text(entries[j].1),
        ),
        lacks(entries, "short"@) ==> body_metadata(body).short_description is None,
{
    law_field(body, i, "description"@);
    law_field(entries, j, "short"@);
}

/// A mapping lists a choice for each key that is a whole number, labelled by its value.
pub proof fn law_choices_are_entries(entries: Seq<(YamlView, YamlView)>, c: ChoiceView)
    ensures
        listed_choices(entries).contains(c) <==> exists|i: int|
            0 <= i < entries.len() && key_number((#[trigger] entries[i]).0) == Some(c.value)
                && scalar_text(entries[i].1) == c.label,
    decreases entries.len(),
{
    if entries.len() > 0 {
        let rest = entries.drop_last();
        let last = entries.last();
        let before = listed_choices(rest);
        let all = listed_choices(entries);
        law_choices_are_entries(rest, c);
        if before.contains(c) {
            let i = choose|i: int|
                0 <= i < rest.len() && key_number((#[trigger] rest[i]).0) == Some(c.value)
                    && scalar_text(rest[i].1) == c.label;
            assert(entries[i] == rest[i]);
            let k = choose|k: int| 0 <= k < before.len() && before[k] == c;
            assert(all[k] == c);
        }
        if all.contains(c) && !before.contains(c) {
            let k = choose|k: int| 0 <= k < all.len() && all[k] == c;
            if k < before.len() {
                assert(before[k] == c);
            }
            assert(entries[entries.len() - 1] == last);
        }
        if exists|i: int|
            0 <= i < entries.len() && key_number((#[trigger] entries[i]).0) == Some(c.value)
                && scalar_text(entries[i].1) == c.label {
            let i = choose|i: int|
                0 <= i < entries.len() && key_number((#[trigger] entries[i]).0) == Some(c.value)
                    && scalar_text(entries[i].1) == c.label;
            if i < rest.len() {
                assert(rest[i] == entries[i]);
                let k = choose|k: int| 0 <= k < before.len() && before[k] == c;
                assert(all[k] == c);
            } else {
                assert(all[all.len() - 1] == c);
            }
        }
    }
}

/// The values of a parameter are the choices behind `values`; its bits those behind `bit`, or
/// behind `bitmask` where there is no `bit`. Both are in the order of their numbers.
pub proof fn law_metadata_choices(
    body: Seq<(YamlView, YamlView)>,
    i: int,
    entries: Seq<(YamlView, YamlView)>,
    debug: Seq<char>,
    v: i64,
)
    requires
        0 <= i < body.len(),
        body[i].1 == (YamlView::Mapping { entries, debug }),
    ensures
        first_with(body, i, "values"@) ==> with_value(body_metadata(body).values, v) == with_value(
            listed_choices(entries),
            v,
        ) && body_metadata(body).values.len() == listed_choices(entries).len(),
        first_with(body, i, "bit"@) ==> with_value(body_metadata(body).bits, v) == with_value(
            listed_choices(entries),
            v,
        ) && body_metadata(body).bits.len() == listed_choices(entries).len(),
        first_with(body, i, "bitmask"@) && lacks(body, "bit"@) ==> with_value(
            body_metadata(body).bits,
            v,
        ) == with_value(listed_choices(entries), v) && body_metadata(body).bits.len()
            == listed_choices(entries).len(),
        lacks(body, "values"@) ==> body_metadata(body).values.len() == 0,
        lacks(body, "bit"@) && lacks(body, "bitmask"@) ==> body_metadata(body).bits.len() == 0,
        forall|a: int, b: int|
            0 <= a < b < body_metadata(body).values.len() ==> (
            #[trigger] body_metadata(body).values[a]).value <= (
            #[trigger] body_metadata(body).values[b]).value,
        forall|a: int, b: int|
            0 <= a < b < body_metadata(body).bits.len() ==> (#[trigger] body_metadata(
                body,
            ).bits[a]).value <= (#[trigger] body_metadata(body).bits[b]).value,
{
    law_field(body, i, "values"@);
    law_field(body, i, "bit"@);
    law_field(body, i, "bitmask"@);
    law_sorted_choices(listed_choices(entries), v);
    law_sorted_choices(choices_of(field(body, "values"@)), v);
    law_sorted_choices(
        choices_of(
            match field(body, "bit"@) {
                Some(x) => Some(x),
                None => field(body, "bitmask"@),
            },
        ),
        v,
    );
}

/// A whole number or the text of one is the number of a choice.
pub proof fn law_choice_numbers(text: Seq<char>, n: i64)
    ensures
        key_number(YamlView::Number { text, integer: Some(n) }) == Some(n),
        key_number(YamlView::Text(decimal_int(n as int))) == Some(n),
        key_number(YamlView::Bool(true)) is None,
{
    law_decimal_is_read_back(n as int);
}

/// The range of a parameter goes from its least to its greatest value, as far as they are whole
/// numbers; where it would be empty, there is none.
pub proof fn law_range(m: MetadataView, a: i64, b: i64)
    ensures
        m.min == Some(decimal_int(a as int)) && m.max == Some(decimal_int(b as int))
            ==> integer_range(m) == (if a <= b {
            Some((a, b))
        } else {
            None
        }),
        m.min == Some(decimal_int(a as int)) && m.max is None ==> integer_range(m) == Some(
            (a, i64::MAX),
        ),
        m.min is None && m.max == Some(decimal_int(b as int)) ==> integer_range(m) == Some(
            (i64::MIN, b),
        ),
        m.min is None && m.max is None ==> integer_range(m) == Some((i64::MIN, i64::MAX)),
{
    law_decimal_is_read_back(a as int);
    law_decimal_is_read_back(b as int);
}

/// A definition with a least and a greatest value gives the range between them.
pub proof fn law_definition_range(
    body: Seq<(YamlView, YamlView)>,
    i: int,
    j: int,
    a: i64,
    b: i64,
)
    requires
        first_with(body, i, "min"@),
        first_with(body, j, "max"@),
        scalar_text(body[i].1) == decimal_int(a as int),
        scalar_text(body[j].1) == decimal_int(b as int),
        a <= b,
    ensures
        integer_range(body_metadata(body)) == Some((a, b)),
{
    law_metadata_fields(body, i);
    law_metadata_fields(body, j);
    law_range(body_metadata(body), a, b);
}

/// The definition of a wanted parameter gives its metadata and, where it has one, its default;
/// nothing of other parameters changes, and the definition of an unwanted one gives nothing.
pub proof fn law_definition_is_collected(
    scan: YamlScan,
    name: Seq<char>,
    body: Seq<(YamlView, YamlView)>,
    debug: Seq<char>,
    wanted: Set<Seq<char>>,
    i: int,
    other: Seq<char>,
)
    ensures
        ({
            let next = scan_definition(
                scan,
                YamlView::Text(name),
                YamlView::Mapping { entries: body, debug },
                wanted,
            );
            &&& !wanted.contains(name) ==> next == scan
            &&& wanted.contains(name) ==> next.metadata.dom().contains(name) && next.metadata[name]
                == body_metadata(body)
            &&& wanted.contains(name) && first_with(body, i, "default"@)
                ==> next.defaults.dom().contains(name) && next.defaults[name] == scalar_text(
                body[i].1,
            )
            &&& lacks(body, "default"@) ==> next.defaults == scan.defaults
            &&& next.serial == scan.serial
            &&& other != name ==> (next.metadata.dom().contains(other)
                <==> scan.metadata.dom().contains(other)) && (next.defaults.dom().contains(other)
                <==> scan.defaults.dom().contains(other))
            &&& other != name && scan.metadata.dom().contains(other) ==> next.metadata[other]
                == scan.metadata[other]
            &&& other != name && scan.defaults.dom().contains(other) ==> next.defaults[other]
                == scan.defaults[other]
        }),
{
    law_field(body, i, "default"@);
}

/// Of several definitions, the last of a wanted parameter gives its metadata, and the last that
/// has one its default.
pub proof fn law_definitions_are_collected(
    scan: YamlScan,
    definitions: Seq<(YamlView, YamlView)>,
    wanted: Set<Seq<char>>,
    i: int,
    name: Seq<char>,
    body: Seq<(YamlView, YamlView)>,
    debug: Seq<char>,
    d: int,
)
    requires
        0 <= i < definitions.len(),
        definitions[i] == (YamlView::Text(name), YamlView::Mapping { entries: body, debug }),
        wanted.contains(name),
        forall|k: int|
            i < k < definitions.len() ==> untagged((#[trigger] definitions[k]).0) != YamlView::Text(
                name,
            ),
    ensures
        scan_definitions(scan, definitions, wanted).metadata.dom().contains(name),
        scan_definitions(scan, definitions, wanted).metadata[name] == body_metadata(body),
        first_with(body, d, "default"@) ==> scan_definitions(
            scan,
            definitions,
            wanted,
        ).defaults.dom().contains(name) && scan_definitions(scan, definitions, wanted).defaults[name]
            == scalar_text(body[d].1),
    decreases definitions.len(),
{
    if i == definitions.len() - 1 {
        law_definition_is_collected(
            scan_definitions(scan, definitions.drop_last(), wanted),
            name,
            body,
            debug,
            wanted,
            d,
            name,
        );
    } else {
        let rest = definitions.drop_last();
        assert(untagged(definitions[definitions.len() - 1].0) != YamlView::Text(name));
        assert forall|k: int| i < k < rest.len() implies untagged((#[trigger] rest[k]).0)
            != YamlView::Text(name) by {
            assert(untagged(definitions[k].0) != YamlView::Text(name));
        }
        law_definitions_are_collected(scan, rest, wanted, i, name, body, debug, d);
    }
}

/// The parameter that chooses a port is remembered as one, with its default; nothing else changes.
pub proof fn law_port_is_collected(
    scan: YamlScan,
    config: Seq<(YamlView, YamlView)>,
    wanted: Set<Seq<char>>,
    i: int,
    name: Seq<char>,
    d: int,
    other: Seq<char>,
)
    requires
        first_with(config, i, "name"@),
        config[i].1 == YamlView::Text(name),
    ensures
        ({
            let next = scan_port(scan, config, wanted);
            &&& !wanted.contains(name) ==> next == scan
            &&& wanted.contains(name) ==> next.serial.contains(name)
            &&& other != name ==> (next.serial.contains(other) <==> scan.serial.contains(other))
            &&& next.metadata == scan.metadata
            &&& wanted.contains(name) && first_with(config, d, "default"@)
                ==> next.defaults.dom().contains(name) && next.defaults[name] == scalar_text(
                config[d].1,
            )
            &&& lacks(config, "default"@) ==> next.defaults == scan.defaults
            &&& other != name && scan.defaults.dom().contains(other) ==> next.defaults[other]
                == scan.defaults[other]
        }),
{
    law_field(config, i, "name"@);
    law_field(config, d, "default"@);
}

/// A mapping is read by its definitions first, and by the port that it configures next; one that
/// has neither gives nothing itself.
pub proof fn law_mapping_is_read(
    scan: YamlScan,
    entries: Seq<(YamlView, YamlView)>,
    wanted: Set<Seq<char>>,
    i: int,
    j: int,
    definitions: Seq<(YamlView, YamlView)>,
    config: Seq<(YamlView, YamlView)>,
    debug: Seq<char>,
    other: Seq<char>,
)
    ensures
        ({
            let next = scan_mapping(scan, entries, wanted);
            let has_definitions = first_with(entries, i, "definitions"@) && entries[i].1 == (
            YamlView::Mapping { entries: definitions, debug });
            let has_port = first_with(entries, j, "port_config_param"@) && entries[j].1 == (
            YamlView::Mapping { entries: config, debug: other });
            let no_definitions = lacks(entries, "definitions"@);
            let no_port = lacks(entries, "port_config_param"@);
            &&& has_definitions && no_port ==> next == scan_definitions(scan, definitions, wanted)
            &&& no_definitions && has_port ==> next == scan_port(scan, config, wanted)
            &&& has_definitions && has_port ==> next == scan_port(
                scan_definitions(scan, definitions, wanted),
                config,
                wanted,
            )
            &&& no_definitions && no_port ==> next == scan
        }),
{
    law_field(entries, i, "definitions"@);
    law_field(entries, j, "port_config_param"@);
}

proof fn lemma_items_prefix(
    scan: YamlScan,
    items: Seq<YamlView>,
    n: nat,
    wanted: Set<Seq<char>>,
)
    requires
        n < items.len(),
    ensures
        scan_items(scan, YamlView::Sequence(items), n, wanted) == scan_items(
            scan,
            YamlView::Sequence(items.drop_last()),
            n,
            wanted,
        ),
    decreases n,
{
    if n > 0 {
        lemma_items_prefix(scan, items, (n - 1) as nat, wanted);
        assert(items.drop_last()[n - 1] == items[n - 1]);
    }
}

/// The items of a list are read one after the other, each whole.
pub proof fn law_lists_are_read_in_order(
    scan: YamlScan,
    items: Seq<YamlView>,
    wanted: Set<Seq<char>>,
)
    ensures
        items.len() == 0 ==> scan_value(scan, YamlView::Sequence(items), wanted) == scan,
        items.len() > 0 ==> scan_value(scan, YamlView::Sequence(items), wanted) == scan_value(
            scan_value(scan, YamlView::Sequence(items.drop_last()), wanted),
            items.last(),
            wanted,
        ),
{
    if items.len() > 0 {
        lemma_items_prefix(scan, items, (items.len() - 1) as nat, wanted);
    }
}

proof fn lemma_entries_prefix(
    scan: YamlScan,
    entries: Seq<(YamlView, YamlView)>,
    debug: Seq<char>,
    n: nat,
    wanted: Set<Seq<char>>,
)
    requires
        n < entries.len(),
    ensures
        scan_entries(scan, YamlView::Mapping { entries, debug }, n, wanted) == scan_entries(
            scan,
            YamlView::Mapping { entries: entries.drop_last(), debug },
            n,
            wanted,
        ),
    decreases n,
{
    if n > 0 {
        lemma_entries_prefix(scan, entries, debug, (n - 1) as nat, wanted);
        assert(entries.drop_last()[n - 1] == entries[n - 1]);
    }
}

/// Behind what a mapping gives itself, the values of its entries are read one after the other,
/// each whole.
pub proof fn law_mappings_are_read_in_order(
    scan: YamlScan,
    entries: Seq<(YamlView, YamlView)>,
    debug: Seq<char>,
    wanted: Set<Seq<char>>,
)
    ensures
        entries.len() == 0 ==> scan_value(scan, YamlView::Mapping { entries, debug }, wanted)
            == scan_mapping(scan, entries, wanted),
        entries.len() == 1 ==> scan_value(scan, YamlView::Mapping { entries, debug }, wanted)
            == scan_value(scan_mapping(scan, entries, wanted), entries[0].1, wanted),
        entries.len() > 0 && lacks(entries, "definitions"@) && lacks(entries, "port_config_param"@)
            ==> scan_value(scan, YamlView::Mapping { entries, debug }, wanted) == scan_value(
            scan_value(scan, YamlView::Mapping { entries: entries.drop_last(), debug }, wanted),
            entries.last().1,
            wanted,
        ),
{
    let v = YamlView::Mapping { entries, debug };
    if entries.len() > 0 {
        let start = scan_mapping(scan, entries, wanted);
        lemma_entries_prefix(start, entries, debug, (entries.len() - 1) as nat, wanted);
        if entries.len() == 1 {
            assert(scan_entries(start, v, 0, wanted) == start);
        }
        if lacks(entries, "definitions"@) && lacks(entries, "port_config_param"@) {
            let rest = entries.drop_last();
            assert forall|k: int| 0 <= k < rest.len() implies (#[trigger] rest[k]).0
                != YamlView::Text("definitions"@) by {
                assert(entries[k].0 != YamlView::Text("definitions"@));
            }
            assert forall|k: int| 0 <= k < rest.len() implies (#[trigger] rest[k]).0
                != YamlView::Text("port_config_param"@) by {
                assert(entries[k].0 != YamlView::Text("port_config_param"@));
            }
            law_field(entries, 0, "definitions"@);
            law_field(entries, 0, "port_config_param"@);
            law_field(rest, 0, "definitions"@);
            law_field(rest, 0, "port_config_param"@);
        }
    }
}

/// Texts, numbers and truth values give nothing.
pub proof fn law_scalars_give_nothing(
    scan: YamlScan,
    text: Seq<char>,
    integer: Option<i64>,
    b: bool,
    wanted: Set<Seq<char>>,
)
    ensures
        scan_value(scan, YamlView::Text(text), wanted) == scan,
        scan_value(scan, YamlView::Number { text, integer }, wanted) == scan,
        scan_value(scan, YamlView::Bool(b), wanted) == scan,
        scan_value(scan, YamlView::Null, wanted) == scan,
{
}

} // verus!
