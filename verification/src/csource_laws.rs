//! What is read of C sources: definitions, and the comments before them.

use vstd::prelude::*;

use crate::csource::{
    c_value, choice_of, comment_metadata, comment_text, definition_of, scan_comment, scan_source,
    scan_source_line, tag_parts, with_tag, SourceScan,
};
use crate::firmware::{is_source_extension, is_yaml_extension, scan_documents, scan_sources};
use crate::model::{sorted_choices, ChoiceView, MetadataView};
use crate::numeral::{decimal, decimal_int, lemma_decimal};
use crate::param_laws::law_decimal_is_read_back;
use crate::text::{
    after_prefix, ascii_lowered, drop_leading, drop_trailing, first_occurrence, is_digit, is_space,
    joined, lemma_index_of, lines_of, occurs_at, trimmed, without_prefixes, without_suffixes,
    CharClass,
};
use crate::text_laws::{lemma_bare, lemma_cut, lemma_uncut};
use crate::yaml::{document_tree, scan_value, YamlScan};

verus! {

/// Whether a text holds no white space.
pub open spec fn spaceless(s: Seq<char>) -> bool {
    forall|i: int| 0 <= i < s.len() ==> !is_space(#[trigger] s[i])
}

/// A tag is a name and, behind white space, a value.
pub proof fn law_tag_parts(name: Seq<char>, value: Seq<char>)
    requires
        spaceless(name),
    ensures
        tag_parts(name + " "@ + value) == (name, trimmed(value)),
        tag_parts(name) == (name, Seq::<char>::empty()),
{
    reveal_strlit(" ");
    reveal_strlit("");
    assert(name + " "@ + value =~= name.push(' ') + value);
    lemma_cut(name, ' ', value, CharClass::Space);
    lemma_uncut(name, CharClass::Space);
    lemma_bare(""@);
    assert(""@ =~= Seq::<char>::empty());
}

/// Each tag sets the one thing that it names, and leaves the rest as it is: a later one overrides
/// an earlier one, except that bits and values add up.
pub proof fn law_tags(m: MetadataView, name: Seq<char>, value: Seq<char>)
    requires
        spaceless(name),
    ensures
        ({
            let next = with_tag(m, name + " "@ + value);
            &&& name == "min"@ ==> next == (MetadataView { min: Some(trimmed(value)), ..m })
            &&& name == "max"@ ==> next == (MetadataView { max: Some(trimmed(value)), ..m })
            &&& name == "unit"@ ==> next == (MetadataView { unit: Some(trimmed(value)), ..m })
            &&& name == "decimal"@ ==> next == (MetadataView { decimal: Some(trimmed(value)), ..m })
            &&& name == "reboot_required"@ ==> next == (MetadataView {
                reboot_required: trimmed(value) == "true"@,
                ..m
            })
            &&& name == "bit"@ && choice_of(trimmed(value)) is Some ==> next == (MetadataView {
                bits: m.bits.push(choice_of(trimmed(value))->0),
                ..m
            })
            &&& name == "value"@ && choice_of(trimmed(value)) is Some ==> next == (MetadataView {
                values: m.values.push(choice_of(trimmed(value))->0),
                ..m
            })
            &&& (name == "bit"@ || name == "value"@) && choice_of(trimmed(value)) is None ==> next
                == m
            &&& next.param_type == m.param_type
            &&& next.short_description == m.short_description
        }),
{
    law_tag_parts(name, value);
    reveal_strlit("min");
    reveal_strlit("max");
    reveal_strlit("unit");
    reveal_strlit("decimal");
    reveal_strlit("reboot_required");
    reveal_strlit("bit");
    reveal_strlit("value");
    assert("min"@[0] == 'm' && "min"@[1] == 'i' && "min"@.len() == 3);
    assert("max"@[0] == 'm' && "max"@[1] == 'a' && "max"@.len() == 3);
    assert("bit"@[0] == 'b' && "bit"@.len() == 3);
    assert("unit"@.len() == 4 && "decimal"@.len() == 7 && "value"@.len() == 5);
    assert("reboot_required"@.len() == 15);
}

/// A choice is a whole number and, behind white space, a label.
pub proof fn law_choice(n: i64, label: Seq<char>)
    ensures
        choice_of(decimal_int(n as int) + " "@ + label) == Some(
            ChoiceView { value: n, label: trimmed(label) },
        ),
        choice_of(decimal_int(n as int)) is Some,
        (choice_of(decimal_int(n as int))->0).value == n,
        (choice_of(decimal_int(n as int))->0).label.len() == 0,
{
    reveal_strlit(" ");
    reveal_strlit("");
    let s = decimal_int(n as int);
    law_decimal_is_read_back(n as int);
    let m = (if n < 0 {
        -n
    } else {
        n as int
    }) as nat;
    lemma_decimal(m);
    assert forall|i: int| 0 <= i < s.len() implies !CharClass::Space.has(#[trigger] s[i]) by {
        if n < 0 {
            if i > 0 {
                assert(s[i] == decimal(m)[i - 1]);
                assert(is_digit(decimal(m)[i - 1]));
            }
        } else {
            assert(is_digit(decimal(m)[i]));
        }
    }
    assert(s + " "@ + label =~= s.push(' ') + label);
    lemma_cut(s, ' ', label, CharClass::Space);
    lemma_uncut(s, CharClass::Space);
}

/// The value of the last tag with a name in a comment.
pub open spec fn last_tag(comment: Seq<Seq<char>>, name: Seq<char>) -> Option<Seq<char>>
    decreases comment.len(),
{
    if comment.len() == 0 {
        None
    } else {
        match after_prefix(trimmed(comment.last()), "@"@) {
            Some(tag) => if tag_parts(tag).0 == name {
                Some(tag_parts(tag).1)
            } else {
                last_tag(comment.drop_last(), name)
            },
            None => last_tag(comment.drop_last(), name),
        }
    }
}

/// The choices of all tags with a name in a comment, in their order.
pub open spec fn tag_choices(comment: Seq<Seq<char>>, name: Seq<char>) -> Seq<ChoiceView>
    decreases comment.len(),
{
    if comment.len() == 0 {
        Seq::empty()
    } else {
        let before = tag_choices(comment.drop_last(), name);
        match after_prefix(trimmed(comment.last()), "@"@) {
            Some(tag) => if tag_parts(tag).0 == name && choice_of(tag_parts(tag).1) is Some {
                before.push(choice_of(tag_parts(tag).1)->0)
            } else {
                before
            },
            None => before,
        }
    }
}

proof fn lemma_comment_scan(comment: Seq<Seq<char>>, kind: Seq<char>)
    ensures
        ({
            let m = scan_comment(comment, kind).metadata;
            &&& m.min == last_tag(comment, "min"@)
            &&& m.max == last_tag(comment, "max"@)
            &&& m.unit == last_tag(comment, "unit"@)
            &&& m.decimal == last_tag(comment, "decimal"@)
            &&& m.reboot_required == (last_tag(comment, "reboot_required"@) == Some("true"@))
            &&& m.bits == tag_choices(comment, "bit"@)
            &&& m.values == tag_choices(comment, "value"@)
        }),
    decreases comment.len(),
{
    reveal_strlit("min");
    reveal_strlit("max");
    reveal_strlit("unit");
    reveal_strlit("decimal");
    reveal_strlit("reboot_required");
    reveal_strlit("bit");
    reveal_strlit("value");
    reveal_strlit("@");
    assert("min"@[0] == 'm' && "min"@[1] == 'i' && "min"@.len() == 3);
    assert("max"@[0] == 'm' && "max"@[1] == 'a' && "max"@.len() == 3);
    assert("bit"@[0] == 'b' && "bit"@.len() == 3);
    assert("unit"@.len() == 4 && "decimal"@.len() == 7 && "value"@.len() == 5);
    assert("reboot_required"@.len() == 15);
    if comment.len() > 0 {
        lemma_comment_scan(comment.drop_last(), kind);
        let text = trimmed(comment.last());
        if text.len() == 0 {
            assert("@"@.len() == 1);
            assert(after_prefix(text, "@"@) is None);
        }
    }
}

/// The least and the greatest value, the unit, the decimals and whether a reboot is required are
/// what the last tag of that name in the comment says; the bits and the values are all that tags
/// give, in the order of their numbers.
pub proof fn law_comment_tags(comment: Seq<Seq<char>>, kind: Seq<char>)
    ensures
        ({
            let m = comment_metadata(comment, kind);
            &&& m.min == last_tag(comment, "min"@)
            &&& m.max == last_tag(comment, "max"@)
            &&& m.unit == last_tag(comment, "unit"@)
            &&& m.decimal == last_tag(comment, "decimal"@)
            &&& m.reboot_required == (last_tag(comment, "reboot_required"@) == Some("true"@))
            &&& m.bits == sorted_choices(tag_choices(comment, "bit"@))
            &&& m.values == sorted_choices(tag_choices(comment, "value"@))
        }),
{
    lemma_comment_scan(comment, kind);
}

/// Whether a line of a comment is one of its description: neither empty nor a tag.
pub open spec fn describes(line: Seq<char>) -> bool {
    trimmed(line).len() > 0 && trimmed(line)[0] != '@'
}

proof fn lemma_description(comment: Seq<Seq<char>>, kind: Seq<char>, n: int)
    requires
        0 < n <= comment.len(),
        forall|i: int| 0 <= i < n ==> describes(#[trigger] comment[i]),
        n < comment.len() ==> !describes(comment[n]),
    ensures
        scan_comment(comment, kind).description == Seq::new(n as nat, |i: int| trimmed(comment[i])),
        scan_comment(comment, kind).described == (n < comment.len()),
    decreases comment.len(),
{
    reveal_strlit("@");
    let rest = comment.drop_last();
    let last = comment.last();
    let text = trimmed(last);
    if n == comment.len() {
        assert(describes(comment[n - 1]));
        assert(after_prefix(text, "@"@) is None) by {
            if "@"@.is_prefix_of(text) {
                assert(text.take(1)[0] == "@"@[0]);
            }
        }
        if n == 1 {
            assert(rest =~= Seq::empty());
            assert(scan_comment(rest, kind).description =~= Seq::empty());
        } else {
            assert forall|i: int| 0 <= i < n - 1 implies describes(#[trigger] rest[i]) by {
                assert(describes(comment[i]));
            }
            lemma_description(rest, kind, n - 1);
        }
        assert(scan_comment(comment, kind).description =~= Seq::new(
            n as nat,
            |i: int| trimmed(comment[i]),
        ));
    } else {
        assert forall|i: int| 0 <= i < n implies describes(#[trigger] rest[i]) by {
            assert(describes(comment[i]));
        }
        if n < rest.len() {
            assert(rest[n] == comment[n]);
        }
        lemma_description(rest, kind, n);
        assert(Seq::new(n as nat, |i: int| trimmed(rest[i])) =~= Seq::new(
            n as nat,
            |i: int| trimmed(comment[i]),
        ));
        if n == comment.len() - 1 && text.len() > 0 {
            assert(text[0] == '@');
            assert(text.take(1) =~= "@"@);
        }
    }
}

/// The description of a parameter is the first paragraph of its comment, on one line.
pub proof fn law_description(comment: Seq<Seq<char>>, kind: Seq<char>, n: int)
    requires
        0 < n <= comment.len(),
        forall|i: int| 0 <= i < n ==> describes(#[trigger] comment[i]),
        n < comment.len() ==> !describes(comment[n]),
    ensures
        comment_metadata(comment, kind).short_description == Some(
            joined(Seq::new(n as nat, |i: int| trimmed(comment[i])), " "@),
        ),
{
    lemma_description(comment, kind, n);
}

/// A definition gives the type that its macro names, the name of the parameter and its default.
pub proof fn law_definition(
    kind: Seq<char>,
    name: Seq<char>,
    value: Seq<char>,
    rest: Seq<char>,
)
    requires
        forall|i: int| 0 <= i < kind.len() ==> #[trigger] kind[i] != '(',
        forall|i: int| 0 <= i < name.len() ==> #[trigger] name[i] != ',' && name[i] != ')',
        forall|i: int| 0 <= i < value.len() ==> #[trigger] value[i] != ',' && value[i] != ')',
        trimmed(name).len() > 0,
    ensures
        definition_of("PARAM_DEFINE_"@ + kind + "("@ + name + ","@ + value + ")"@ + rest) == Some(
            (ascii_lowered(kind), trimmed(name), c_value(trimmed(value))),
        ),
{
    let mark = "PARAM_DEFINE_"@;
    reveal_strlit("(");
    reveal_strlit(")");
    reveal_strlit(",");
    let line = mark + kind + "("@ + name + ","@ + value + ")"@ + rest;
    assert(line.subrange(0, mark.len() as int) =~= mark);
    assert(occurs_at(line, mark, 0));
    assert(first_occurrence(line, mark, 0));
    lemma_index_of(line, mark, 0);
    let tail = name + ","@ + value + ")"@ + rest;
    assert(line.skip(mark.len() as int) =~= kind.push('(') + tail);
    lemma_cut(kind, '(', tail, CharClass::Exactly('('));
    let args = name + ","@ + value;
    assert(tail =~= args.push(')') + rest);
    assert forall|i: int| 0 <= i < args.len() implies !CharClass::Exactly(')').has(
        #[trigger] args[i],
    ) by {
        if i < name.len() {
            assert(args[i] == name[i]);
        } else if i > name.len() {
            assert(args[i] == value[i - name.len() - 1]);
        }
    }
    lemma_cut(args, ')', rest, CharClass::Exactly(')'));
    assert(args =~= name.push(',') + value);
    lemma_cut(name, ',', value, CharClass::Exactly(','));
    lemma_uncut(value, CharClass::Exactly(','));
}

/// The default of a parameter is a number as it is written, without the suffix of a float and
/// without a semicolon.
pub proof fn law_c_value(x: Seq<char>)
    requires
        x.len() > 0,
        !is_space(x[0]),
        !is_space(x.last()),
        x.last() != ';',
        x.last() != 'f',
        x.last() != 'F',
    ensures
        c_value(x) == x,
        c_value(x.push('f')) == x,
        c_value(x.push('F')) == x,
        c_value(x.push('f').push(';')) == x,
{
    reveal_with_fuel(drop_trailing, 3);
    lemma_bare(x);
    lemma_bare(x.push('f'));
    lemma_bare(x.push('F'));
    lemma_bare(x.push('f').push(';'));
    assert(x.push('f').drop_last() =~= x);
    assert(x.push('F').drop_last() =~= x);
    assert(x.push('f').push(';').drop_last() =~= x.push('f'));
    assert(drop_trailing(x.push('f'), CharClass::Exactly('f')) == x);
    assert(drop_trailing(x.push('F'), CharClass::Exactly('F')) == x);
    assert(drop_trailing(x.push('f').push(';'), CharClass::Exactly(';')) == x.push('f'));
}

/// A line of a comment is what stands behind its stars.
pub proof fn law_comment_text(x: Seq<char>)
    requires
        x.len() > 0,
        !is_space(x[0]),
        !is_space(x.last()),
        x[0] != '*',
    ensures
        comment_text(x) == x,
        comment_text("* "@ + x) == x,
        comment_text("*"@ + x) == x,
{
    reveal_strlit("* ");
    reveal_strlit("*");
    let star = CharClass::Exactly('*');
    reveal_with_fuel(drop_leading, 3);
    lemma_bare(x);
    lemma_bare("*"@ + x);
    assert(("*"@ + x).last() == x.last());
    assert(("*"@ + x).drop_first() =~= x);
    assert(drop_leading("*"@ + x, star) == x);
    let s = "* "@ + x;
    assert(s.last() == x.last());
    lemma_bare(s);
    let t = seq![' '] + x;
    assert(s.drop_first() =~= t);
    assert(drop_leading(s, star) == t);
    assert(t.drop_first() =~= x);
    assert(drop_leading(t, CharClass::Space) == x);
    assert(trimmed(t) == x);
}

/// The definition of a wanted parameter, outside of comments, gives its default, and as its
/// metadata what the comment before it says; it uses the comment up, and nothing of other
/// parameters changes. That of an unwanted one only uses the comment up.
pub proof fn law_definition_line(
    scan: SourceScan,
    line: Seq<char>,
    wanted: Set<Seq<char>>,
    kind: Seq<char>,
    name: Seq<char>,
    default: Seq<char>,
    other: Seq<char>,
)
    requires
        !scan.in_comment,
        !"/**"@.is_prefix_of(trimmed(line)),
        definition_of(trimmed(line)) == Some((kind, name, default)),
    ensures
        ({
            let next = scan_source_line(scan, line, wanted);
            &&& next.pending.len() == 0
            &&& !next.in_comment
            &&& wanted.contains(name) ==> next.defaults.dom().contains(name) && next.defaults[name]
                == default
            &&& wanted.contains(name) ==> next.metadata.dom().contains(name) && next.metadata[name]
                == comment_metadata(scan.pending, kind)
            &&& !wanted.contains(name) ==> next.defaults == scan.defaults && next.metadata
                == scan.metadata
            &&& other != name ==> (next.defaults.dom().contains(other)
                <==> scan.defaults.dom().contains(other))
            &&& other != name && scan.defaults.dom().contains(other) ==> next.defaults[other]
                == scan.defaults[other]
            &&& other != name && scan.metadata.dom().contains(other) ==> next.metadata[other]
                == scan.metadata[other]
        }),
{
}

/// A line outside of comments that is no definition changes nothing.
pub proof fn law_other_line(scan: SourceScan, line: Seq<char>, wanted: Set<Seq<char>>)
    requires
        !scan.in_comment,
        !"/**"@.is_prefix_of(trimmed(line)),
        definition_of(trimmed(line)) is None,
    ensures
        scan_source_line(scan, line, wanted) == scan,
{
}

/// A comment opens, takes in its lines, and waits for a definition once it closes; meanwhile
/// nothing is defined.
pub proof fn law_comment_lines(scan: SourceScan, x: Seq<char>, wanted: Set<Seq<char>>)
    requires
        x.len() > 0,
        !is_space(x[0]),
        !is_space(x.last()),
        x[0] != '*',
        x[0] != '/',
        x.last() != '/',
    ensures
        ({
            let next = scan_source_line(scan, "/**"@, wanted);
            next.in_comment && next.comment.len() == 0 && next.defaults == scan.defaults
                && next.metadata == scan.metadata
        }),
        scan.in_comment ==> ({
            let next = scan_source_line(scan, "* "@ + x, wanted);
            next.in_comment && next.comment == scan.comment.push(x) && next.pending == scan.pending
                && next.defaults == scan.defaults && next.metadata == scan.metadata
        }),
        scan.in_comment ==> ({
            let next = scan_source_line(scan, "*/"@, wanted);
            !next.in_comment && next.pending == scan.comment && next.defaults == scan.defaults
                && next.metadata == scan.metadata
        }),
{
    reveal_strlit("/**");
    reveal_strlit("*/");
    reveal_strlit("* ");
    lemma_bare("/**"@);
    lemma_bare("*/"@);
    let open = "/**"@;
    let close = "*/"@;
    assert(open.take(3) =~= open);
    assert(open.skip(3) =~= Seq::<char>::empty());
    assert(without_prefixes(open, open) =~= Seq::<char>::empty()) by {
        assert(without_prefixes(open.skip(3), open) == open.skip(3));
    }
    lemma_bare(Seq::<char>::empty());
    assert(!close.is_suffix_of(open)) by {
        assert(open.skip(1)[0] == '*' && open.skip(1)[1] == '*');
        assert(close[1] == '/');
        if close.is_suffix_of(open) {
            assert(open.skip(1) == close);
        }
    }
    assert(!open.is_prefix_of(close));
    assert(close.skip(0) =~= close);
    assert(close.is_suffix_of(close));
    assert(close.take(0) =~= Seq::<char>::empty());
    assert(without_suffixes(close, close) =~= Seq::<char>::empty()) by {
        assert(without_suffixes(close.take(0), close) == close.take(0));
    }
    let s = "* "@ + x;
    assert(s.last() == x.last());
    assert(s[0] == '*');
    lemma_bare(s);
    assert(!open.is_prefix_of(s)) by {
        if open.is_prefix_of(s) {
            assert(s.take(3)[0] == open[0]);
        }
    }
    assert(!close.is_suffix_of(s)) by {
        if close.is_suffix_of(s) {
            assert(s.skip(s.len() - 2)[1] == close[1]);
        }
    }
    assert(without_suffixes(s, close) == s);
    law_comment_text(x);
}

/// A source is read line by line, each line on top of those before it.
pub proof fn law_sources_are_read_in_order(
    source: Seq<Seq<char>>,
    line: Seq<char>,
    wanted: Set<Seq<char>>,
    defaults: Map<Seq<char>, Seq<char>>,
    metadata: Map<Seq<char>, MetadataView>,
)
    ensures
        scan_source(source.push(line), wanted, defaults, metadata) == scan_source_line(
            scan_source(source, wanted, defaults, metadata),
            line,
            wanted,
        ),
        scan_source(Seq::empty(), wanted, defaults, metadata).defaults == defaults,
        scan_source(Seq::empty(), wanted, defaults, metadata).metadata == metadata,
        !scan_source(Seq::empty(), wanted, defaults, metadata).in_comment,
        scan_source(Seq::empty(), wanted, defaults, metadata).pending.len() == 0,
{
    assert(source.push(line).drop_last() =~= source);
}

/// The firmware is read source by source, and then document by document, each on top of what is
/// known; a text that is no document gives nothing.
pub proof fn law_firmware_is_read_in_order(
    sources: Seq<Seq<char>>,
    source: Seq<char>,
    scan: YamlScan,
    documents: Seq<Seq<char>>,
    document: Seq<char>,
    wanted: Set<Seq<char>>,
)
    ensures
        ({
            let before = scan_sources(sources, wanted);
            let after = scan_sources(sources.push(source), wanted);
            let read = scan_source(lines_of(source), wanted, before.defaults, before.metadata);
            &&& after.defaults == read.defaults
            &&& after.metadata == read.metadata
            &&& after.serial == before.serial
        }),
        scan_sources(Seq::empty(), wanted).defaults == Map::<Seq<char>, Seq<char>>::empty(),
        scan_sources(Seq::empty(), wanted).metadata == Map::<Seq<char>, MetadataView>::empty(),
        scan_documents(scan, documents.push(document), wanted) == (match document_tree(document) {
            Some(tree) => scan_value(scan_documents(scan, documents, wanted), tree, wanted),
            None => scan_documents(scan, documents, wanted),
        }),
        scan_documents(scan, Seq::empty(), wanted) == scan,
{
    assert(sources.push(source).drop_last() =~= sources);
    assert(documents.push(document).drop_last() =~= documents);
}

/// No file is read both as a source and as a document; the files of both kinds are those with the
/// usual extensions.
pub proof fn law_extensions(extension: Option<Seq<char>>)
    ensures
        is_source_extension(extension) ==> !is_yaml_extension(extension),
        is_source_extension(Some("c"@)) && is_source_extension(Some("cpp"@)),
        is_source_extension(Some("cc"@)) && is_source_extension(Some("h"@)),
        is_source_extension(Some("hpp"@)),
        is_yaml_extension(Some("yaml"@)) && is_yaml_extension(Some("yml"@)),
        !is_source_extension(None) && !is_yaml_extension(None),
        is_source_extension(extension) ==> ((extension->0)[0] == 'c' || (extension->0)[0] == 'h')
            && (extension->0).len() <= 3,
        is_yaml_extension(extension) ==> (extension->0)[0] == 'y',
{
    reveal_strlit("c");
    reveal_strlit("cc");
    reveal_strlit("cpp");
    reveal_strlit("h");
    reveal_strlit("hpp");
    reveal_strlit("yaml");
    reveal_strlit("yml");
    assert("c"@[0] == 'c' && "cc"@[0] == 'c' && "cpp"@[0] == 'c' && "h"@[0] == 'h' && "hpp"@[0]
        == 'h' && "yaml"@[0] == 'y' && "yml"@[0] == 'y');
    assert("c"@.len() == 1 && "cc"@.len() == 2 && "cpp"@.len() == 3 && "h"@.len() == 1
        && "hpp"@.len() == 3);
}

} // verus!
