//! Parameter definitions in C sources: `PARAM_DEFINE_` macros behind documentation comments.

use vstd::prelude::*;

use crate::model::{
    choices, law_sorted_choices, no_metadata, sort_choices, sorted_choices, ChoiceView,
    MetadataView, ParamChoice, ParamMetadata,
};
use crate::numeral::{int_of, parse_i64};
use crate::table::{TextMap, TextSet};
use crate::text::{
    after_prefix, ascii_lowered, copy_texts, drop_leading, drop_trailing, find_text, from_chars,
    has_prefix, has_suffix, head_before, index_of, is_str, join, joined, lemma_index_of, lines,
    lines_of, slice_part, split_first, split_once, strip_prefix, strip_prefixes, strip_suffixes,
    take_before, texts, to_ascii_lower, to_chars, trim, trim_leading, trim_trailing, trimmed, views,
    without_prefixes, without_suffixes, CharClass,
};

verus! {

/// A line of a comment without the asterisks in front of it.
pub open spec fn comment_text(line: Seq<char>) -> Seq<char> {
    trimmed(drop_leading(trimmed(line), CharClass::Exactly('*')))
}

/// A default value without the suffixes of C literals.
pub open spec fn c_value(value: Seq<char>) -> Seq<char> {
    trimmed(
        drop_trailing(
            drop_trailing(
                drop_trailing(trimmed(value), CharClass::Exactly(';')),
                CharClass::Exactly('f'),
            ),
            CharClass::Exactly('F'),
        ),
    )
}

/// What a `PARAM_DEFINE_` macro in a line defines: the type, the name and the default.
pub open spec fn definition_of(line: Seq<char>) -> Option<(Seq<char>, Seq<char>, Seq<char>)> {
    match index_of(line, "PARAM_DEFINE_"@) {
        None => None,
        Some(at) => match split_first(
            line.skip(at + "PARAM_DEFINE_"@.len()),
            CharClass::Exactly('('),
        ) {
            None => None,
            Some((kind, tail)) => match split_first(tail, CharClass::Exactly(')')) {
                None => None,
                Some((args, _)) => match split_first(args, CharClass::Exactly(',')) {
                    None => None,
                    Some((name, rest)) => if trimmed(name).len() == 0 {
                        None
                    } else {
                        Some(
                            (
                                ascii_lowered(kind),
                                trimmed(name),
                                c_value(trimmed(head_before(rest, CharClass::Exactly(',')))),
                            ),
                        )
                    },
                },
            },
        },
    }
}

/// A choice written as a number and a label.
pub open spec fn choice_of(value: Seq<char>) -> Option<ChoiceView> {
    match int_of(head_before(value, CharClass::Space), i64::MIN as int, i64::MAX as int) {
        None => None,
        Some(v) => Some(
            ChoiceView {
                value: v as i64,
                label: match split_first(value, CharClass::Space) {
                    Some((_, label)) => trimmed(label),
                    None => ""@,
                },
            },
        ),
    }
}

/// Choices with one more, if there is one.
pub open spec fn with_choice(cs: Seq<ChoiceView>, c: Option<ChoiceView>) -> Seq<ChoiceView> {
    match c {
        Some(x) => cs.push(x),
        None => cs,
    }
}

/// The name of a tag, and the value behind it.
pub open spec fn tag_parts(tag: Seq<char>) -> (Seq<char>, Seq<char>) {
    match split_first(tag, CharClass::Space) {
        Some((name, value)) => (name, trimmed(value)),
        None => (tag, trimmed(""@)),
    }
}

/// Metadata after a tag.
pub open spec fn with_tag(m: MetadataView, tag: Seq<char>) -> MetadataView {
    let (name, value) = tag_parts(tag);
    if name == "min"@ {
        MetadataView { min: Some(value), ..m }
    } else if name == "max"@ {
        MetadataView { max: Some(value), ..m }
    } else if name == "unit"@ {
        MetadataView { unit: Some(value), ..m }
    } else if name == "decimal"@ {
        MetadataView { decimal: Some(value), ..m }
    } else if name == "reboot_required"@ {
        MetadataView { reboot_required: value == "true"@, ..m }
    } else if name == "bit"@ {
        MetadataView { bits: with_choice(m.bits, choice_of(value)), ..m }
    } else if name == "value"@ {
        MetadataView { values: with_choice(m.values, choice_of(value)), ..m }
    } else {
        m
    }
}

/// What has been read of a comment.
pub struct CommentScan {
    /// What the tags say.
    pub metadata: MetadataView,
    /// The lines of the short description.
    pub description: Seq<Seq<char>>,
    /// Whether the short description is over.
    pub described: bool,
}

/// What has been read of a comment after one more line.
pub open spec fn scan_line(scan: CommentScan, line: Seq<char>) -> CommentScan {
    let text = trimmed(line);
    if text.len() == 0 {
        CommentScan { described: scan.described || scan.description.len() > 0, ..scan }
    } else {
        match after_prefix(text, "@"@) {
            Some(tag) => CommentScan {
                metadata: with_tag(scan.metadata, tag),
                described: true,
                ..scan
            },
            None => if scan.described {
                scan
            } else {
                CommentScan { description: scan.description.push(text), ..scan }
            },
        }
    }
}

/// What has been read after the given lines of a comment.
pub open spec fn scan_comment(comment: Seq<Seq<char>>, kind: Seq<char>) -> CommentScan
    decreases comment.len(),
{
    if comment.len() == 0 {
        CommentScan {
            metadata: MetadataView { param_type: Some(kind), ..no_metadata() },
            description: Seq::empty(),
            described: false,
        }
    } else {
        scan_line(scan_comment(comment.drop_last(), kind), comment.last())
    }
}

/// The metadata that a comment gives a parameter whose macro names the given type.
pub open spec fn comment_metadata(comment: Seq<Seq<char>>, kind: Seq<char>) -> MetadataView {
    let scan = scan_comment(comment, kind);
    let m = scan.metadata;
    MetadataView {
        short_description: if scan.description.len() > 0 {
            Some(joined(scan.description, " "@))
        } else {
            None
        },
        param_type: if m.bits.len() > 0 {
            Some("bitmask"@)
        } else if m.values.len() > 0 {
            Some("enum"@)
        } else {
            Some(kind)
        },
        bits: sorted_choices(m.bits),
        values: sorted_choices(m.values),
        ..m
    }
}

/// What has been read of a source.
pub struct SourceScan {
    /// Whether a comment is open.
    pub in_comment: bool,
    /// The lines of the comment that is open, or was last.
    pub comment: Seq<Seq<char>>,
    /// The lines of the comment that documents the next definition.
    pub pending: Seq<Seq<char>>,
    /// The defaults of the wanted parameters.
    pub defaults: Map<Seq<char>, Seq<char>>,
    /// The metadata of the wanted parameters.
    pub metadata: Map<Seq<char>, MetadataView>,
}

/// What has been read of a source after one more line.
pub open spec fn scan_source_line(
    scan: SourceScan,
    line: Seq<char>,
    wanted: Set<Seq<char>>,
) -> SourceScan {
    let text = trimmed(line);
    let ends = "*/"@.is_suffix_of(text);
    if "/**"@.is_prefix_of(text) {
        let rest = trimmed(without_prefixes(text, "/**"@));
        let comment = if rest.len() > 0 && rest != "*/"@ {
            seq![comment_text(rest)]
        } else {
            Seq::empty()
        };
        SourceScan {
            in_comment: !ends,
            comment,
            pending: if ends {
                comment
            } else {
                scan.pending
            },
            ..scan
        }
    } else if scan.in_comment {
        let content = trimmed(without_suffixes(text, "*/"@));
        let comment = if content.len() > 0 {
            scan.comment.push(comment_text(content))
        } else {
            scan.comment
        };
        SourceScan {
            in_comment: !ends,
            comment,
            pending: if ends {
                comment
            } else {
                scan.pending
            },
            ..scan
        }
    } else {
        match definition_of(text) {
            None => scan,
            Some((kind, name, default)) => if wanted.contains(name) {
                SourceScan {
                    pending: Seq::empty(),
                    defaults: scan.defaults.insert(name, default),
                    metadata: scan.metadata.insert(name, comment_metadata(scan.pending, kind)),
                    ..scan
                }
            } else {
                SourceScan { pending: Seq::empty(), ..scan }
            },
        }
    }
}

/// What has been read after the given lines of a source, from the given tables on.
pub open spec fn scan_source(
    source: Seq<Seq<char>>,
    wanted: Set<Seq<char>>,
    defaults: Map<Seq<char>, Seq<char>>,
    metadata: Map<Seq<char>, MetadataView>,
) -> SourceScan
    decreases source.len(),
{
    if source.len() == 0 {
        SourceScan {
            in_comment: false,
            comment: Seq::empty(),
            pending: Seq::empty(),
            defaults,
            metadata,
        }
    } else {
        scan_source_line(
            scan_source(source.drop_last(), wanted, defaults, metadata),
            source.last(),
            wanted,
        )
    }
}

/// A line of a comment without the asterisks in front of it.
pub fn clean_c_comment_line(line: &str) -> (r: String)
    ensures
        r@ == comment_text(line@),
{
    let c = to_chars(line);
    from_chars(trim(trim_leading(trim(c.as_slice()), CharClass::Exactly('*'))))
}

/// A default value without the suffixes of C literals.
pub fn normalize_c_default_value(value: &str) -> (r: String)
    ensures
        r@ == c_value(value@),
{
    let c = to_chars(value);
    let a = trim_trailing(trim(c.as_slice()), CharClass::Exactly(';'));
    let b = trim_trailing(a, CharClass::Exactly('f'));
    from_chars(trim(trim_trailing(b, CharClass::Exactly('F'))))
}

/// The view of a definition.
pub open spec fn definition_view(d: Option<(String, String, String)>) -> Option<
    (Seq<char>, Seq<char>, Seq<char>),
> {
    match d {
        Some((a, b, c)) => Some((a@, b@, c@)),
        None => None,
    }
}

/// Reads the type, the name and the default of a `PARAM_DEFINE_` macro.
pub fn parse_c_param_define(line: &str) -> (r: Option<(String, String, String)>)
    ensures
        definition_view(r) == definition_of(line@),
{
    let c = to_chars(line);
    let n: usize = c.len();
    let needle = to_chars("PARAM_DEFINE_");
    let at = match find_text(c.as_slice(), needle.as_slice()) {
        None => {
            return None;
        },
        Some(at) => at,
    };
    proof {
        lemma_index_of(line@, "PARAM_DEFINE_"@, at as int);
        assert(at + needle@.len() <= n);
    }
    let rest = slice_part(c.as_slice(), at + needle.len(), n);
    assert(rest@ =~= line@.skip(at + "PARAM_DEFINE_"@.len()));
    let (kind, tail) = match split_once(rest, CharClass::Exactly('(')) {
        None => {
            return None;
        },
        Some(parts) => parts,
    };
    let args = match split_once(tail, CharClass::Exactly(')')) {
        None => {
            return None;
        },
        Some((args, _)) => args,
    };
    let (name, more) = match split_once(args, CharClass::Exactly(',')) {
        None => {
            return None;
        },
        Some(parts) => parts,
    };
    let name = trim(name);
    if name.len() == 0 {
        return None;
    }
    let value = from_chars(trim(take_before(more, CharClass::Exactly(','))));
    let lower = to_ascii_lower(kind);
    Some(
        (
            from_chars(lower.as_slice()),
            from_chars(name),
            normalize_c_default_value(value.as_str()),
        ),
    )
}

/// The view of an optional choice.
pub open spec fn opt_choice(c: Option<ParamChoice>) -> Option<ChoiceView> {
    match c {
        Some(x) => Some(x@),
        None => None,
    }
}

/// Reads a choice written as a number and a label.
pub fn parse_c_param_choice(value: &str) -> (r: Option<ParamChoice>)
    ensures
        opt_choice(r) == choice_of(value@),
{
    let c = to_chars(value);
    let number = from_chars(take_before(c.as_slice(), CharClass::Space));
    match parse_i64(number.as_str()) {
        None => None,
        Some(v) => {
            let label = match split_once(c.as_slice(), CharClass::Space) {
                Some((_, label)) => from_chars(trim(label)),
                None => String::from_str(""),
            };
            Some(ParamChoice { value: v, label })
        },
    }
}

fn push_choice(list: &mut Vec<ParamChoice>, choice: Option<ParamChoice>)
    ensures
        choices(final(list)@) == with_choice(choices(old(list)@), opt_choice(choice)),
{
    let ghost before = list@;
    if let Some(c) = choice {
        list.push(c);
        assert(choices(list@) =~= choices(before).push(c@));
    }
}

/// Takes a tag of a comment into the metadata.
pub fn parse_c_param_tag(tag: &str, metadata: &mut ParamMetadata)
    ensures
        final(metadata)@ == with_tag(old(metadata)@, tag@),
{
    let c = to_chars(tag);
    let empty = to_chars("");
    let (name, value) = match split_once(c.as_slice(), CharClass::Space) {
        Some((name, value)) => (name, trim(value)),
        None => (c.as_slice(), trim(empty.as_slice())),
    };
    let text = from_chars(value);
    if is_str(name, "min") {
        metadata.min = Some(text);
    } else if is_str(name, "max") {
        metadata.max = Some(text);
    } else if is_str(name, "unit") {
        metadata.unit = Some(text);
    } else if is_str(name, "decimal") {
        metadata.decimal = Some(text);
    } else if is_str(name, "reboot_required") {
        metadata.reboot_required = is_str(value, "true");
    } else if is_str(name, "bit") {
        push_choice(&mut metadata.bits, parse_c_param_choice(text.as_str()));
    } else if is_str(name, "value") {
        push_choice(&mut metadata.values, parse_c_param_choice(text.as_str()));
    }
}

/// The metadata that a comment gives a parameter whose macro names the given type.
pub fn parse_c_param_metadata(comment: &[String], macro_type: &str) -> (r: ParamMetadata)
    ensures
        r@ == comment_metadata(texts(comment@), macro_type@),
{
    let mut metadata = ParamMetadata::default();
    metadata.param_type = Some(String::from_str(macro_type));
    let mut description: Vec<String> = Vec::new();
    let mut described = false;
    let ghost all = texts(comment@);
    assert(texts(description@) =~= Seq::empty());
    for i in 0..comment.len()
        invariant
            all == texts(comment@),
            (CommentScan { metadata: metadata@, description: texts(description@), described })
                == scan_comment(all.take(i as int), macro_type@),
    {
        proof {
            assert(all.take(i + 1).drop_last() =~= all.take(i as int));
            assert(all.take(i + 1).last() == comment@[i as int]@);
        }
        let c = to_chars(comment[i].as_str());
        let text = trim(c.as_slice());
        if text.len() == 0 {
            if description.len() > 0 {
                described = true;
            }
        } else {
            match strip_prefix(text, "@") {
                Some(tag) => {
                    described = true;
                    let tag = from_chars(tag);
                    parse_c_param_tag(tag.as_str(), &mut metadata);
                },
                None => {
                    if !described {
                        let ghost before = description@;
                        description.push(from_chars(text));
                        assert(texts(description@) =~= texts(before).push(text@));
                    }
                },
            }
        }
    }
    assert(all.take(all.len() as int) =~= all);
    proof {
        lemma_scan_keeps(all, macro_type@);
    }
    if description.len() > 0 {
        metadata.short_description = Some(join(description.as_slice(), " "));
    }
    if metadata.bits.len() > 0 {
        metadata.param_type = Some(String::from_str("bitmask"));
    } else if metadata.values.len() > 0 {
        metadata.param_type = Some(String::from_str("enum"));
    }
    let bits = sort_choices(&metadata.bits);
    let values = sort_choices(&metadata.values);
    metadata.bits = bits;
    metadata.values = values;
    metadata
}

proof fn lemma_scan_keeps(comment: Seq<Seq<char>>, kind: Seq<char>)
    ensures
        scan_comment(comment, kind).metadata.param_type == Some(kind),
        scan_comment(comment, kind).metadata.short_description is None,
    decreases comment.len(),
{
    if comment.len() > 0 {
        lemma_scan_keeps(comment.drop_last(), kind);
    }
}

/// Collects the defaults and the metadata of the wanted parameters that a C source defines.
pub fn collect_c_param_data(
    text: &str,
    wanted: &TextSet,
    defaults: &mut TextMap<String>,
    metadata: &mut TextMap<ParamMetadata>,
)
    ensures
        ({
            let scan = scan_source(lines_of(text@), wanted@, old(defaults)@, old(metadata)@);
            final(defaults)@ == scan.defaults && final(metadata)@ == scan.metadata
        }),
{
    let chars = to_chars(text);
    let source = lines(chars.as_slice());
    let ghost all = lines_of(text@);
    let ghost defaults0 = defaults@;
    let ghost metadata0 = metadata@;
    let mut in_comment = false;
    let mut comment: Vec<String> = Vec::new();
    let mut pending: Vec<String> = Vec::new();
    assert(texts(comment@) =~= Seq::empty());
    assert(texts(pending@) =~= Seq::empty());
    for i in 0..source.len()
        invariant
            views(source@) == all,
            all == lines_of(text@),
            (SourceScan {
                in_comment,
                comment: texts(comment@),
                pending: texts(pending@),
                defaults: defaults@,
                metadata: metadata@,
            }) == scan_source(all.take(i as int), wanted@, defaults0, metadata0),
    {
        proof {
            assert(all.take(i + 1).drop_last() =~= all.take(i as int));
            assert(all.take(i + 1).last() == views(source@)[i as int]);
            assert(all.take(i + 1).last() == source@[i as int]@);
        }
        let line = trim(source[i]);
        let ends = has_suffix(line, "*/");
        if has_prefix(line, "/**") {
            in_comment = true;
            comment = Vec::new();
            assert(texts(comment@) =~= Seq::empty());
            let rest = trim(strip_prefixes(line, "/**"));
            if rest.len() > 0 && !is_str(rest, "*/") {
                let rest = from_chars(rest);
                comment.push(clean_c_comment_line(rest.as_str()));
                assert(texts(comment@) =~= seq![comment_text(rest@)]);
            }
            if ends {
                in_comment = false;
                pending = copy_texts(comment.as_slice());
            }
        } else if in_comment {
            let content = trim(strip_suffixes(line, "*/"));
            if content.len() > 0 {
                let content = from_chars(content);
                let ghost before = comment@;
                comment.push(clean_c_comment_line(content.as_str()));
                assert(texts(comment@) =~= texts(before).push(comment_text(content@)));
            }
            if ends {
                in_comment = false;
                pending = copy_texts(comment.as_slice());
            }
        } else {
            let line = from_chars(line);
            if let Some((kind, name, default)) = parse_c_param_define(line.as_str()) {
                if wanted.contains(name.as_str()) {
                    defaults.insert(name.clone(), default);
                    metadata.insert(
                        name,
                        parse_c_param_metadata(pending.as_slice(), kind.as_str()),
                    );
                }
                pending = Vec::new();
                assert(texts(pending@) =~= Seq::empty());
            }
        }
    }
    assert(all.take(all.len() as int) =~= all);
}

/// A source adds nothing but wanted parameters, and each with its metadata.
pub proof fn law_sources_give_wanted(
    source: Seq<Seq<char>>,
    wanted: Set<Seq<char>>,
    defaults: Map<Seq<char>, Seq<char>>,
    metadata: Map<Seq<char>, MetadataView>,
    name: Seq<char>,
)
    requires
        !defaults.dom().contains(name),
    ensures
        scan_source(source, wanted, defaults, metadata).defaults.dom().contains(name)
            ==> wanted.contains(name) && scan_source(
            source,
            wanted,
            defaults,
            metadata,
        ).metadata.dom().contains(name),
    decreases source.len(),
{
    if source.len() > 0 {
        law_sources_give_wanted(source.drop_last(), wanted, defaults, metadata, name);
    }
}

/// Metadata of a comment have their choices in the order of the values, and name a bit mask or an
/// enumeration where they have any.
pub proof fn law_comment_choices(comment: Seq<Seq<char>>, kind: Seq<char>)
    ensures
        ({
            let m = comment_metadata(comment, kind);
            &&& m.bits.len() > 0 ==> m.param_type == Some("bitmask"@)
            &&& m.bits.len() == 0 && m.values.len() > 0 ==> m.param_type == Some("enum"@)
            &&& m.bits.len() == 0 && m.values.len() == 0 ==> m.param_type == Some(kind)
            &&& forall|i: int, j: int|
                0 <= i < j < m.bits.len() ==> (#[trigger] m.bits[i]).value <= (
                #[trigger] m.bits[j]).value
            &&& forall|i: int, j: int|
                0 <= i < j < m.values.len() ==> (#[trigger] m.values[i]).value <= (
                #[trigger] m.values[j]).value
        }),
{
    let m = scan_comment(comment, kind).metadata;
    law_sorted_choices(m.bits, 0);
    law_sorted_choices(m.values, 0);
}

} // verus!
