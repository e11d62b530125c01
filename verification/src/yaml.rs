//! Parameter definitions in YAML files.

use vstd::prelude::*;

use crate::model::{
    choices, sort_choices, sorted_choices, ChoiceView, MetadataView, ParamChoice, ParamMetadata,
};
use crate::numeral::{int_of, parse_i64};
use crate::table::{TextMap, TextSet};
use crate::text::{join, joined, opt_text, same_str, texts};

verus! {

/// A YAML value.
#[derive(Debug)]
pub enum Yaml {
    /// A null.
    Null,
    /// A boolean.
    Bool(bool),
    /// A number.
    Number {
        /// The number as text.
        text: String,
        /// The number, if it is a 64-bit signed integer.
        integer: Option<i64>,
    },
    /// A string.
    Text(String),
    /// A sequence.
    Sequence(Vec<Yaml>),
    /// A mapping.
    Mapping {
        /// The keys and their values, in their order.
        entries: Vec<(Yaml, Yaml)>,
        /// The mapping as text, for messages.
        debug: String,
    },
    /// A value with a tag.
    Tagged {
        /// The value.
        value: Box<Yaml>,
        /// The value with its tag as text, for messages.
        debug: String,
    },
}

/// The view of a YAML value.
pub enum YamlView {
    /// A null.
    Null,
    /// A boolean.
    Bool(bool),
    /// A number.
    Number {
        /// The number as text.
        text: Seq<char>,
        /// The number, if it is a 64-bit signed integer.
        integer: Option<i64>,
    },
    /// A string.
    Text(Seq<char>),
    /// A sequence.
    Sequence(Seq<YamlView>),
    /// A mapping.
    Mapping {
        /// The keys and their values, in their order.
        entries: Seq<(YamlView, YamlView)>,
        /// The mapping as text, for messages.
        debug: Seq<char>,
    },
    /// A value with a tag.
    Tagged {
        /// The value.
        value: Box<YamlView>,
        /// The value with its tag as text, for messages.
        debug: Seq<char>,
    },
}

impl Yaml {
    /// The tree of a value.
    pub open spec fn tree(self) -> YamlView
        decreases self,
    {
        match self {
            Yaml::Null => YamlView::Null,
            Yaml::Bool(b) => YamlView::Bool(b),
            Yaml::Number { text, integer } => YamlView::Number { text: text@, integer },
            Yaml::Text(s) => YamlView::Text(s@),
            Yaml::Sequence(items) => YamlView::Sequence(
                Seq::new(
                    items@.len(),
                    |i: int|
                        if 0 <= i < items@.len() {
                            items@[i].tree()
                        } else {
                            arbitrary()
                        },
                ),
            ),
            Yaml::Mapping { entries, debug } => YamlView::Mapping {
                entries: Seq::new(
                    entries@.len(),
                    |i: int|
                        if 0 <= i < entries@.len() {
                            (entries@[i].0.tree(), entries@[i].1.tree())
                        } else {
                            arbitrary()
                        },
                ),
                debug: debug@,
            },
            Yaml::Tagged { value, debug } => YamlView::Tagged {
                value: Box::new((*value).tree()),
                debug: debug@,
            },
        }
    }
}

impl View for Yaml {
    type V = YamlView;

    open spec fn view(&self) -> YamlView {
        self.tree()
    }
}

/// A YAML value as text: scalars as they are, the items of a sequence between commas.
pub open spec fn scalar_text(v: YamlView) -> Seq<char>
    decreases v, 1nat,
{
    match v {
        YamlView::Null => "Null"@,
        YamlView::Bool(b) => if b {
            "true"@
        } else {
            "false"@
        },
        YamlView::Number { text, .. } => text,
        YamlView::Text(s) => s,
        YamlView::Sequence(_) => joined(item_texts(v), ","@),
        YamlView::Mapping { debug, .. } => debug,
        YamlView::Tagged { debug, .. } => debug,
    }
}

/// The items of a sequence as texts.
pub open spec fn item_texts(v: YamlView) -> Seq<Seq<char>>
    decreases v, 0nat,
{
    match v {
        YamlView::Sequence(items) => Seq::new(
            items.len(),
            |i: int|
                if 0 <= i < items.len() {
                    scalar_text(items[i])
                } else {
                    arbitrary()
                },
        ),
        _ => Seq::empty(),
    }
}

/// A value without its tags.
pub open spec fn untagged(v: YamlView) -> YamlView
    decreases v,
{
    match v {
        YamlView::Tagged { value, .. } => untagged(*value),
        _ => v,
    }
}

/// The value of the first entry with the given text as its key.
pub open spec fn field(entries: Seq<(YamlView, YamlView)>, key: Seq<char>) -> Option<YamlView>
    decreases entries.len(),
{
    if entries.len() == 0 {
        None
    } else if entries[0].0 == YamlView::Text(key) {
        Some(entries[0].1)
    } else {
        field(entries.drop_first(), key)
    }
}

/// The text of a field.
pub open spec fn field_text(entries: Seq<(YamlView, YamlView)>, key: Seq<char>) -> Option<
    Seq<char>,
> {
    match field(entries, key) {
        Some(v) => Some(scalar_text(v)),
        None => None,
    }
}

/// The number that a key stands for.
pub open spec fn key_number(v: YamlView) -> Option<i64> {
    match v {
        YamlView::Number { integer, .. } => integer,
        YamlView::Text(s) => match int_of(s, i64::MIN as int, i64::MAX as int) {
            Some(n) => Some(n as i64),
            None => None,
        },
        _ => None,
    }
}

/// The entries whose keys are numbers, as choices.
pub open spec fn listed_choices(entries: Seq<(YamlView, YamlView)>) -> Seq<ChoiceView>
    decreases entries.len(),
{
    if entries.len() == 0 {
        Seq::empty()
    } else {
        let before = listed_choices(entries.drop_last());
        match key_number(entries.last().0) {
            Some(value) => before.push(
                ChoiceView { value, label: scalar_text(entries.last().1) },
            ),
            None => before,
        }
    }
}

/// The choices that a mapping lists.
pub open spec fn choices_of(v: Option<YamlView>) -> Seq<ChoiceView> {
    match v {
        Some(YamlView::Mapping { entries, .. }) => listed_choices(entries),
        _ => Seq::empty(),
    }
}

/// The metadata in the body of a definition.
pub open spec fn body_metadata(body: Seq<(YamlView, YamlView)>) -> MetadataView {
    MetadataView {
        param_type: field_text(body, "type"@),
        short_description: match field(body, "description"@) {
            Some(v) => match untagged(v) {
                YamlView::Mapping { entries, .. } => field_text(entries, "short"@),
                _ => None,
            },
            None => None,
        },
        unit: field_text(body, "unit"@),
        min: field_text(body, "min"@),
        max: field_text(body, "max"@),
        decimal: field_text(body, "decimal"@),
        reboot_required: match field(body, "reboot_required"@) {
            Some(v) => untagged(v) == YamlView::Bool(true),
            None => false,
        },
        values: sorted_choices(choices_of(field(body, "values"@))),
        bits: sorted_choices(
            choices_of(
                match field(body, "bit"@) {
                    Some(v) => Some(v),
                    None => field(body, "bitmask"@),
                },
            ),
        ),
    }
}

/// What YAML files give of parameters.
pub struct YamlScan {
    /// The defaults.
    pub defaults: Map<Seq<char>, Seq<char>>,
    /// The metadata.
    pub metadata: Map<Seq<char>, MetadataView>,
    /// The parameters that choose a serial port.
    pub serial: Set<Seq<char>>,
}

/// Defaults with that of `name`, if there is one.
pub open spec fn with_default(
    defaults: Map<Seq<char>, Seq<char>>,
    name: Seq<char>,
    default: Option<YamlView>,
) -> Map<Seq<char>, Seq<char>> {
    match default {
        Some(v) => defaults.insert(name, scalar_text(v)),
        None => defaults,
    }
}

/// What is known after one definition.
pub open spec fn scan_definition(
    scan: YamlScan,
    key: YamlView,
    body: YamlView,
    wanted: Set<Seq<char>>,
) -> YamlScan {
    match (untagged(key), untagged(body)) {
        (YamlView::Text(name), YamlView::Mapping { entries, .. }) => if wanted.contains(name) {
            YamlScan {
                defaults: with_default(scan.defaults, name, field(entries, "default"@)),
                metadata: scan.metadata.insert(name, body_metadata(entries)),
                ..scan
            }
        } else {
            scan
        },
        _ => scan,
    }
}

/// What is known after the given definitions.
pub open spec fn scan_definitions(
    scan: YamlScan,
    definitions: Seq<(YamlView, YamlView)>,
    wanted: Set<Seq<char>>,
) -> YamlScan
    decreases definitions.len(),
{
    if definitions.len() == 0 {
        scan
    } else {
        scan_definition(
            scan_definitions(scan, definitions.drop_last(), wanted),
            definitions.last().0,
            definitions.last().1,
            wanted,
        )
    }
}

/// What is known after the configuration of a port.
pub open spec fn scan_port(
    scan: YamlScan,
    config: Seq<(YamlView, YamlView)>,
    wanted: Set<Seq<char>>,
) -> YamlScan {
    match field(config, "name"@) {
        Some(v) => match untagged(v) {
            YamlView::Text(name) => if wanted.contains(name) {
                YamlScan {
                    defaults: with_default(scan.defaults, name, field(config, "default"@)),
                    serial: scan.serial.insert(name),
                    ..scan
                }
            } else {
                scan
            },
            _ => scan,
        },
        None => scan,
    }
}

/// What is known after the definitions and the port configuration of a mapping.
pub open spec fn scan_mapping(
    scan: YamlScan,
    entries: Seq<(YamlView, YamlView)>,
    wanted: Set<Seq<char>>,
) -> YamlScan {
    let defined = match field(entries, "definitions"@) {
        Some(YamlView::Mapping { entries: definitions, .. }) => scan_definitions(
            scan,
            definitions,
            wanted,
        ),
        _ => scan,
    };
    match field(entries, "port_config_param"@) {
        Some(YamlView::Mapping { entries: config, .. }) => scan_port(defined, config, wanted),
        _ => defined,
    }
}

/// What is known after a value: first what a mapping says itself, then its values in their order.
pub open spec fn scan_value(scan: YamlScan, v: YamlView, wanted: Set<Seq<char>>) -> YamlScan
    decreases v, 1nat, 0nat,
{
    match v {
        YamlView::Mapping { entries, .. } => scan_entries(
            scan_mapping(scan, entries, wanted),
            v,
            entries.len(),
            wanted,
        ),
        YamlView::Sequence(items) => scan_items(scan, v, items.len(), wanted),
        _ => scan,
    }
}

/// What is known after the values of the first `n` entries of a mapping.
pub open spec fn scan_entries(
    scan: YamlScan,
    v: YamlView,
    n: nat,
    wanted: Set<Seq<char>>,
) -> YamlScan
    decreases v, 0nat, n,
{
    match v {
        YamlView::Mapping { entries, .. } => if n == 0 || n > entries.len() {
            scan
        } else {
            scan_value(
                scan_entries(scan, v, (n - 1) as nat, wanted),
                entries[n - 1].1,
                wanted,
            )
        },
        _ => scan,
    }
}

/// What is known after the first `n` items of a sequence.
pub open spec fn scan_items(
    scan: YamlScan,
    v: YamlView,
    n: nat,
    wanted: Set<Seq<char>>,
) -> YamlScan
    decreases v, 0nat, n,
{
    match v {
        YamlView::Sequence(items) => if n == 0 || n > items.len() {
            scan
        } else {
            scan_value(scan_items(scan, v, (n - 1) as nat, wanted), items[n - 1], wanted)
        },
        _ => scan,
    }
}

/// A YAML value as text: scalars as they are, the items of a sequence between commas.
pub fn yaml_scalar_to_string(value: &Yaml) -> (r: String)
    ensures
        r@ == scalar_text(value@),
    decreases value,
{
    match value {
        Yaml::Null => String::from_str("Null"),
        Yaml::Bool(b) => if *b {
            String::from_str("true")
        } else {
            String::from_str("false")
        },
        Yaml::Number { text, .. } => text.clone(),
        Yaml::Text(s) => s.clone(),
        Yaml::Sequence(items) => {
            let mut parts: Vec<String> = Vec::new();
            for i in 0..items.len()
                invariant
                    parts@.len() == i,
                    decreases_to!(value => items),
                    forall|k: int| 0 <= k < i ==> (#[trigger] parts@[k])@ == scalar_text(items@[k]@),
            {
                parts.push(yaml_scalar_to_string(&items[i]));
            }
            assert(texts(parts@) =~= item_texts(value@));
            join(parts.as_slice(), ",")
        },
        Yaml::Mapping { debug, .. } => debug.clone(),
        Yaml::Tagged { debug, .. } => debug.clone(),
    }
}

/// The number that a key stands for.
pub fn yaml_key_to_i64(value: &Yaml) -> (r: Option<i64>)
    ensures
        r == key_number(value@),
{
    match value {
        Yaml::Number { integer, .. } => *integer,
        Yaml::Text(s) => parse_i64(s.as_str()),
        _ => None,
    }
}

/// A value without its tags.
pub fn untag(value: &Yaml) -> (r: &Yaml)
    ensures
        r@ == untagged(value@),
    decreases value,
{
    match value {
        Yaml::Tagged { value: inner, .. } => untag(inner),
        _ => value,
    }
}

/// The views of entries.
pub open spec fn entries_view(entries: Seq<(Yaml, Yaml)>) -> Seq<(YamlView, YamlView)> {
    Seq::new(entries.len(), |i: int| (entries[i].0@, entries[i].1@))
}

/// The view of an optional value.
pub open spec fn opt_yaml(v: Option<&Yaml>) -> Option<YamlView> {
    match v {
        Some(x) => Some(x@),
        None => None,
    }
}

proof fn lemma_mapping_view(v: Yaml)
    ensures
        match v {
            Yaml::Mapping { entries, debug } => v@ == (YamlView::Mapping {
                entries: entries_view(entries@),
                debug: debug@,
            }),
            _ => true,
        },
{
    match v {
        Yaml::Mapping { entries, debug } => {
            assert(v@->entries =~= entries_view(entries@));
        },
        _ => {},
    }
}

/// Finds the value of the entry with the given text as its key.
pub fn find_field<'a>(entries: &'a Vec<(Yaml, Yaml)>, key: &str) -> (r: Option<&'a Yaml>)
    ensures
        opt_yaml(r) == field(entries_view(entries@), key@),
{
    let ghost all = entries_view(entries@);
    assert(all.skip(0) =~= all);
    for i in 0..entries.len()
        invariant
            all == entries_view(entries@),
            field(all, key@) == field(all.skip(i as int), key@),
    {
        assert(all.skip(i as int)[0] == (entries@[i as int].0@, entries@[i as int].1@));
        let found = match &entries[i].0 {
            Yaml::Text(s) => same_str(s.as_str(), key),
            _ => false,
        };
        if found {
            return Some(&entries[i].1);
        }
        assert(all.skip(i as int).drop_first() =~= all.skip(i + 1));
    }
    None
}

/// The text of a field.
pub fn yaml_field_string(entries: &Vec<(Yaml, Yaml)>, key: &str) -> (r: Option<String>)
    ensures
        opt_text(r) == field_text(entries_view(entries@), key@),
{
    match find_field(entries, key) {
        Some(v) => Some(yaml_scalar_to_string(v)),
        None => None,
    }
}

/// The choices that a mapping lists.
pub fn parse_param_choices(value: Option<&Yaml>) -> (r: Vec<ParamChoice>)
    ensures
        choices(r@) == choices_of(opt_yaml(value)),
{
    let mut out: Vec<ParamChoice> = Vec::new();
    assert(choices(out@) =~= Seq::empty());
    if let Some(v) = value {
        proof {
            lemma_mapping_view(*v);
        }
        if let Yaml::Mapping { entries, .. } = v {
            let ghost all = entries_view(entries@);
            for i in 0..entries.len()
                invariant
                    all == entries_view(entries@),
                    choices(out@) == listed_choices(all.take(i as int)),
            {
                proof {
                    assert(all.take(i + 1).drop_last() =~= all.take(i as int));
                    assert(all.take(i + 1).last() == (
                        entries@[i as int].0@,
                        entries@[i as int].1@,
                    ));
                }
                if let Some(value) = yaml_key_to_i64(&entries[i].0) {
                    let ghost before = out@;
                    let label = yaml_scalar_to_string(&entries[i].1);
                    let ghost c = ChoiceView { value, label: label@ };
                    out.push(ParamChoice { value, label });
                    assert(choices(out@) =~= choices(before).push(c));
                }
            }
            assert(all.take(all.len() as int) =~= all);
        }
    }
    out
}

/// The metadata in the body of a definition.
pub fn parse_param_metadata(body: &Vec<(Yaml, Yaml)>) -> (r: ParamMetadata)
    ensures
        r@ == body_metadata(entries_view(body@)),
{
    let short_description = match find_field(body, "description") {
        Some(v) => {
            let v = untag(v);
            proof {
                lemma_mapping_view(*v);
            }
            match v {
                Yaml::Mapping { entries, .. } => yaml_field_string(entries, "short"),
                _ => None,
            }
        },
        None => None,
    };
    let reboot_required = match find_field(body, "reboot_required") {
        Some(v) => match untag(v) {
            Yaml::Bool(b) => *b,
            _ => false,
        },
        None => false,
    };
    let values = parse_param_choices(find_field(body, "values"));
    let bits = parse_param_choices(
        match find_field(body, "bit") {
            Some(v) => Some(v),
            None => find_field(body, "bitmask"),
        },
    );
    ParamMetadata {
        param_type: yaml_field_string(body, "type"),
        short_description,
        unit: yaml_field_string(body, "unit"),
        min: yaml_field_string(body, "min"),
        max: yaml_field_string(body, "max"),
        decimal: yaml_field_string(body, "decimal"),
        reboot_required,
        values: sort_choices(&values),
        bits: sort_choices(&bits),
    }
}

fn collect_default(defaults: &mut TextMap<String>, name: &String, default: Option<&Yaml>)
    ensures
        final(defaults)@ == with_default(old(defaults)@, name@, opt_yaml(default)),
{
    if let Some(v) = default {
        defaults.insert(name.clone(), yaml_scalar_to_string(v));
    }
}

fn collect_definitions(
    definitions: &Vec<(Yaml, Yaml)>,
    wanted: &TextSet,
    defaults: &mut TextMap<String>,
    metadata: &mut TextMap<ParamMetadata>,
    Ghost(serial): Ghost<Set<Seq<char>>>,
)
    ensures
        (YamlScan { defaults: final(defaults)@, metadata: final(metadata)@, serial })
            == scan_definitions(
            YamlScan { defaults: old(defaults)@, metadata: old(metadata)@, serial },
            entries_view(definitions@),
            wanted@,
        ),
{
    let ghost start = YamlScan { defaults: defaults@, metadata: metadata@, serial };
    let ghost all = entries_view(definitions@);
    for i in 0..definitions.len()
        invariant
            all == entries_view(definitions@),
            (YamlScan { defaults: defaults@, metadata: metadata@, serial }) == scan_definitions(
                start,
                all.take(i as int),
                wanted@,
            ),
    {
        proof {
            assert(all.take(i + 1).drop_last() =~= all.take(i as int));
            assert(all.take(i + 1).last() == (
                definitions@[i as int].0@,
                definitions@[i as int].1@,
            ));
        }
        let body = untag(&definitions[i].1);
        proof {
            lemma_mapping_view(*body);
        }
        if let Yaml::Text(name) = untag(&definitions[i].0) {
            if wanted.contains(name.as_str()) {
                if let Yaml::Mapping { entries, .. } = body {
                    collect_default(defaults, name, find_field(entries, "default"));
                    metadata.insert(name.clone(), parse_param_metadata(entries));
                }
            }
        }
    }
    assert(all.take(all.len() as int) =~= all);
}

fn collect_port_config(
    config: &Vec<(Yaml, Yaml)>,
    wanted: &TextSet,
    defaults: &mut TextMap<String>,
    serial: &mut TextSet,
    Ghost(metadata): Ghost<Map<Seq<char>, MetadataView>>,
)
    ensures
        (YamlScan { defaults: final(defaults)@, metadata, serial: final(serial)@ }) == scan_port(
            YamlScan { defaults: old(defaults)@, metadata, serial: old(serial)@ },
            entries_view(config@),
            wanted@,
        ),
{
    if let Some(v) = find_field(config, "name") {
        if let Yaml::Text(name) = untag(v) {
            if wanted.contains(name.as_str()) {
                let _ = serial.insert(name.clone());
                collect_default(defaults, name, find_field(config, "default"));
            }
        }
    }
}

/// Collects the defaults and the metadata of the wanted parameters that a YAML value defines, and
/// which of them choose a serial port.
pub fn collect_yaml_param_data(
    value: &Yaml,
    wanted: &TextSet,
    defaults: &mut TextMap<String>,
    metadata: &mut TextMap<ParamMetadata>,
    serial_config_params: &mut TextSet,
)
    ensures
        (YamlScan {
            defaults: final(defaults)@,
            metadata: final(metadata)@,
            serial: final(serial_config_params)@,
        }) == scan_value(
            YamlScan {
                defaults: old(defaults)@,
                metadata: old(metadata)@,
                serial: old(serial_config_params)@,
            },
            value@,
            wanted@,
        ),
    decreases value,
{
    let ghost start = YamlScan {
        defaults: defaults@,
        metadata: metadata@,
        serial: serial_config_params@,
    };
    proof {
        lemma_mapping_view(*value);
    }
    match value {
        Yaml::Mapping { entries, .. } => {
            if let Some(v) = find_field(entries, "definitions") {
                proof {
                    lemma_mapping_view(*v);
                }
                if let Yaml::Mapping { entries: definitions, .. } = v {
                    collect_definitions(
                        definitions,
                        wanted,
                        defaults,
                        metadata,
                        Ghost(serial_config_params@),
                    );
                }
            }
            if let Some(v) = find_field(entries, "port_config_param") {
                proof {
                    lemma_mapping_view(*v);
                }
                if let Yaml::Mapping { entries: config, .. } = v {
                    collect_port_config(
                        config,
                        wanted,
                        defaults,
                        serial_config_params,
                        Ghost(metadata@),
                    );
                }
            }
            let ghost said = scan_mapping(start, entries_view(entries@), wanted@);
            for i in 0..entries.len()
                invariant
                    decreases_to!(value => entries),
                    value@ == (YamlView::Mapping {
                        entries: entries_view(entries@),
                        debug: value@->Mapping_debug,
                    }),
                    (YamlScan {
                        defaults: defaults@,
                        metadata: metadata@,
                        serial: serial_config_params@,
                    }) == scan_entries(said, value@, i as nat, wanted@),
            {
                collect_yaml_param_data(
                    &entries[i].1,
                    wanted,
                    defaults,
                    metadata,
                    serial_config_params,
                );
                assert(entries_view(entries@)[i as int].1 == entries@[i as int].1@);
            }
        },
        Yaml::Sequence(items) => {
            for i in 0..items.len()
                invariant
                    decreases_to!(value => items),
                    *value == Yaml::Sequence(*items),
                    (YamlScan {
                        defaults: defaults@,
                        metadata: metadata@,
                        serial: serial_config_params@,
                    }) == scan_items(start, value@, i as nat, wanted@),
            {
                collect_yaml_param_data(
                    &items[i],
                    wanted,
                    defaults,
                    metadata,
                    serial_config_params,
                );
            }
        },
        _ => {},
    }
}

/// The YAML values of `serde_yaml`.
#[verifier::external_type_specification]
#[verifier::external_body]
pub struct ExYamlValue(serde_yaml::Value);

/// The errors of `serde_yaml`.
#[verifier::external_type_specification]
#[verifier::external_body]
pub struct ExYamlError(serde_yaml::Error);

/// The tree that a value of `serde_yaml` holds.
pub uninterp spec fn value_tree(value: serde_yaml::Value) -> YamlView;

/// The tree of a YAML document, if the text is one.
pub uninterp spec fn document_tree(text: Seq<char>) -> Option<YamlView>;

/// Reads a YAML document with `serde_yaml::from_str`. The text alone decides whether that succeeds
/// and which tree it gives.
#[verifier::external_body]
fn parse_document(text: &str) -> (r: Result<serde_yaml::Value, serde_yaml::Error>)
    ensures
        match r {
            Ok(v) => document_tree(text@) == Some(value_tree(v)),
            Err(_) => document_tree(text@) is None,
        },
{
    serde_yaml::from_str::<serde_yaml::Value>(text)
}

/// The top of a value of `serde_yaml`.
pub enum YamlNode<'a> {
    /// A null.
    Null,
    /// A boolean.
    Bool(bool),
    /// A number, as text and as a 64-bit signed integer if it is one.
    Number(String, Option<i64>),
    /// A string.
    Text(String),
    /// The items of a sequence.
    Sequence(Vec<&'a serde_yaml::Value>),
    /// The entries of a mapping, and the mapping as text.
    Mapping(Vec<(&'a serde_yaml::Value, &'a serde_yaml::Value)>, String),
    /// The value behind a tag, and the tagged value as text.
    Tagged(&'a serde_yaml::Value, String),
}

/// The trees of values.
pub open spec fn value_trees(values: Seq<&serde_yaml::Value>) -> Seq<YamlView> {
    Seq::new(values.len(), |i: int| value_tree(*values[i]))
}

/// The trees of entries.
pub open spec fn entry_trees(entries: Seq<(&serde_yaml::Value, &serde_yaml::Value)>) -> Seq<
    (YamlView, YamlView),
> {
    Seq::new(entries.len(), |i: int| (value_tree(*entries[i].0), value_tree(*entries[i].1)))
}

/// The tree of a value whose top is the given node.
pub open spec fn node_tree(node: YamlNode) -> YamlView {
    match node {
        YamlNode::Null => YamlView::Null,
        YamlNode::Bool(b) => YamlView::Bool(b),
        YamlNode::Number(text, integer) => YamlView::Number { text: text@, integer },
        YamlNode::Text(s) => YamlView::Text(s@),
        YamlNode::Sequence(items) => YamlView::Sequence(value_trees(items@)),
        YamlNode::Mapping(entries, debug) => YamlView::Mapping {
            entries: entry_trees(entries@),
            debug: debug@,
        },
        YamlNode::Tagged(value, debug) => YamlView::Tagged {
            value: Box::new(value_tree(*value)),
            debug: debug@,
        },
    }
}

/// Tells the variants of `serde_yaml::Value` apart. The tree of a value is the one that its top
/// makes of the trees below it; a number is written as `serde_yaml::Number` displays itself and
/// read by `as_i64`, and mappings and tagged values are written as `Debug` shows them.
#[verifier::external_body]
fn open_value(value: &serde_yaml::Value) -> (r: YamlNode<'_>)
    ensures
        node_tree(r) == value_tree(*value),
{
    match value {
        serde_yaml::Value::Null => YamlNode::Null,
        serde_yaml::Value::Bool(b) => YamlNode::Bool(*b),
        serde_yaml::Value::Number(n) => YamlNode::Number(n.to_string(), n.as_i64()),
        serde_yaml::Value::String(s) => YamlNode::Text(s.clone()),
        serde_yaml::Value::Sequence(items) => YamlNode::Sequence(items.iter().collect()),
        serde_yaml::Value::Mapping(m) => YamlNode::Mapping(m.iter().collect(), format!("{value:?}")),
        serde_yaml::Value::Tagged(t) => YamlNode::Tagged(&t.value, format!("{value:?}")),
    }
}

proof fn lemma_smaller(v: YamlView, i: int)
    ensures
        match v {
            YamlView::Sequence(items) => 0 <= i < items.len() ==> decreases_to!(v => items[i]),
            YamlView::Mapping { entries, .. } => 0 <= i < entries.len() ==> decreases_to!(
                v => entries[i].0) && decreases_to!(v => entries[i].1),
            YamlView::Tagged { value, .. } => decreases_to!(v => *value),
            _ => true,
        },
{
}

/// The tree of a value of `serde_yaml`.
pub fn yaml_from(value: &serde_yaml::Value) -> (r: Yaml)
    ensures
        r@ == value_tree(*value),
    decreases value_tree(*value),
{
    match open_value(value) {
        YamlNode::Null => Yaml::Null,
        YamlNode::Bool(b) => Yaml::Bool(b),
        YamlNode::Number(text, integer) => Yaml::Number { text, integer },
        YamlNode::Text(s) => Yaml::Text(s),
        YamlNode::Sequence(items) => {
            let mut out: Vec<Yaml> = Vec::new();
            for i in 0..items.len()
                invariant
                    value_tree(*value) == YamlView::Sequence(value_trees(items@)),
                    out@.len() == i,
                    forall|k: int| 0 <= k < i ==> (#[trigger] out@[k])@ == value_trees(items@)[k],
            {
                proof {
                    lemma_smaller(value_tree(*value), i as int);
                    assert(value_trees(items@)[i as int] == value_tree(*items@[i as int]));
                }
                out.push(yaml_from(items[i]));
            }
            let r = Yaml::Sequence(out);
            assert(r@->Sequence_0 =~= value_trees(items@));
            r
        },
        YamlNode::Mapping(entries, debug) => {
            let mut out: Vec<(Yaml, Yaml)> = Vec::new();
            for i in 0..entries.len()
                invariant
                    value_tree(*value) == (YamlView::Mapping {
                        entries: entry_trees(entries@),
                        debug: debug@,
                    }),
                    out@.len() == i,
                    forall|k: int|
                        0 <= k < i ==> ((#[trigger] out@[k]).0@, out@[k].1@) == entry_trees(
                            entries@,
                        )[k],
            {
                proof {
                    lemma_smaller(value_tree(*value), i as int);
                    assert(entry_trees(entries@)[i as int] == (
                        value_tree(*entries@[i as int].0),
                        value_tree(*entries@[i as int].1),
                    ));
                }
                let key = yaml_from(entries[i].0);
                let body = yaml_from(entries[i].1);
                out.push((key, body));
            }
            let r = Yaml::Mapping { entries: out, debug };
            assert(r@->entries =~= entry_trees(entries@));
            r
        },
        YamlNode::Tagged(inner, debug) => {
            proof {
                lemma_smaller(value_tree(*value), 0);
            }
            Yaml::Tagged { value: Box::new(yaml_from(inner)), debug }
        },
    }
}

/// The tree of a YAML document, if the text is one.
pub fn read_yaml(text: &str) -> (r: Option<Yaml>)
    ensures
        match r {
            Some(v) => document_tree(text@) == Some(v@),
            None => document_tree(text@) is None,
        },
{
    match parse_document(text) {
        Ok(v) => Some(yaml_from(&v)),
        Err(_) => None,
    }
}

/// Collects what a YAML document says of the wanted parameters; a text that is no document says
/// nothing.
pub fn collect_yaml_text(
    text: &str,
    wanted: &TextSet,
    defaults: &mut TextMap<String>,
    metadata: &mut TextMap<ParamMetadata>,
    serial_config_params: &mut TextSet,
)
    ensures
        ({
            let start = YamlScan {
                defaults: old(defaults)@,
                metadata: old(metadata)@,
                serial: old(serial_config_params)@,
            };
            (YamlScan {
                defaults: final(defaults)@,
                metadata: final(metadata)@,
                serial: final(serial_config_params)@,
            }) == (match document_tree(text@) {
                Some(v) => scan_value(start, v, wanted@),
                None => start,
            })
        }),
{
    if let Some(v) = read_yaml(text) {
        collect_yaml_param_data(&v, wanted, defaults, metadata, serial_config_params);
    }
}

/// Whether `after` holds no more than `before` and wanted parameters.
pub open spec fn adds_wanted(before: YamlScan, after: YamlScan, wanted: Set<Seq<char>>) -> bool {
    &&& forall|k: Seq<char>| #[trigger]
        after.defaults.dom().contains(k) ==> before.defaults.dom().contains(k) || wanted.contains(k)
    &&& forall|k: Seq<char>| #[trigger]
        after.metadata.dom().contains(k) ==> before.metadata.dom().contains(k) || wanted.contains(k)
    &&& forall|k: Seq<char>| #[trigger]
        after.serial.contains(k) ==> before.serial.contains(k) || wanted.contains(k)
}

proof fn lemma_definitions_add_wanted(
    scan: YamlScan,
    definitions: Seq<(YamlView, YamlView)>,
    wanted: Set<Seq<char>>,
)
    ensures
        adds_wanted(scan, scan_definitions(scan, definitions, wanted), wanted),
    decreases definitions.len(),
{
    if definitions.len() > 0 {
        lemma_definitions_add_wanted(scan, definitions.drop_last(), wanted);
    }
}

proof fn lemma_mapping_adds_wanted(
    scan: YamlScan,
    entries: Seq<(YamlView, YamlView)>,
    wanted: Set<Seq<char>>,
)
    ensures
        adds_wanted(scan, scan_mapping(scan, entries, wanted), wanted),
{
    match field(entries, "definitions"@) {
        Some(YamlView::Mapping { entries: definitions, .. }) => {
            lemma_definitions_add_wanted(scan, definitions, wanted);
        },
        _ => {},
    }
}

/// A YAML value adds nothing but wanted parameters.
pub proof fn law_documents_give_wanted(scan: YamlScan, v: YamlView, wanted: Set<Seq<char>>)
    ensures
        adds_wanted(scan, scan_value(scan, v, wanted), wanted),
    decreases v, 1nat, 0nat,
{
    match v {
        YamlView::Mapping { entries, .. } => {
            lemma_mapping_adds_wanted(scan, entries, wanted);
            lemma_entries_add_wanted(scan_mapping(scan, entries, wanted), v, entries.len(), wanted);
        },
        YamlView::Sequence(items) => {
            lemma_items_add_wanted(scan, v, items.len(), wanted);
        },
        _ => {},
    }
}

proof fn lemma_entries_add_wanted(scan: YamlScan, v: YamlView, n: nat, wanted: Set<Seq<char>>)
    ensures
        adds_wanted(scan, scan_entries(scan, v, n, wanted), wanted),
    decreases v, 0nat, n,
{
    match v {
        YamlView::Mapping { entries, .. } => {
            if 0 < n <= entries.len() {
                let m = (n - 1) as nat;
                lemma_entries_add_wanted(scan, v, m, wanted);
                law_documents_give_wanted(
                    scan_entries(scan, v, m, wanted),
                    entries[n - 1].1,
                    wanted,
                );
            }
        },
        _ => {},
    }
}

proof fn lemma_items_add_wanted(scan: YamlScan, v: YamlView, n: nat, wanted: Set<Seq<char>>)
    ensures
        adds_wanted(scan, scan_items(scan, v, n, wanted), wanted),
    decreases v, 0nat, n,
{
    match v {
        YamlView::Sequence(items) => {
            if 0 < n <= items.len() {
                let m = (n - 1) as nat;
                lemma_items_add_wanted(scan, v, m, wanted);
                law_documents_give_wanted(scan_items(scan, v, m, wanted), items[n - 1], wanted);
            }
        },
        _ => {},
    }
}

} // verus!
