//! What a discovery gives: which files a device runs on, in which order they count, and whether
//! the versions agree.

use vstd::prelude::*;

use crate::discovery::{
    command_of, complete_discovery, discovered, filled_items, first_named, report_of, start_line,
    status_lines, transport_of, DiscoveryErrorView, ParamFile, ReportView, VoxlDiscovery,
    VoxlReport,
};
use crate::numeral::all_digits;
use crate::table::{law_sorted_texts, sorted_texts};
use crate::text::{is_digit, is_space, lines_of, opt_text, split_on, trimmed, words_of, CharClass};
use crate::text_laws::{law_after_prefix, lemma_bare, lemma_cut, lemma_first_at, lemma_uncut};
use crate::voxl::{
    chosen_tag, code_at, fields_of, first_code_at, opt_repo, params_tree_of, plain_version,
    platform_code_of, printed, repo_version, same_version, tag_for, tree_of_package, version_line,
    version_tag, with_field, LocalRepoVersion, NoTrees,
};
use crate::voxl_stack::{
    file_layers, first_missing, is_params_name, param_file_defaults, platform_names, stack_label,
    stack_of, with_param_line, ReportedFile, StackErrorView, StackText,
};

verus! {

/// A line of a report gives its key its value; a second value of a key is added behind a comma.
pub proof fn law_report_lines(
    fields: Map<Seq<char>, Seq<char>>,
    key: Seq<char>,
    value: Seq<char>,
    other: Seq<char>,
)
    requires
        forall|i: int| 0 <= i < key.len() ==> #[trigger] key[i] != '=',
        key.len() > 0,
        value.len() > 0,
        !is_space(key[0]),
        !is_space(key.last()),
        !is_space(value[0]),
        !is_space(value.last()),
    ensures
        ({
            let next = with_field(fields, key + "="@ + value);
            &&& next.dom().contains(key)
            &&& !fields.dom().contains(key) ==> next[key] == value
            &&& fields.dom().contains(key) ==> next[key] == fields[key].push(',') + value
            &&& other != key ==> (next.dom().contains(other) <==> fields.dom().contains(other))
            &&& other != key && fields.dom().contains(other) ==> next[other] == fields[other]
        }),
{
    reveal_strlit("=");
    let line = key + "="@ + value;
    assert(line =~= key.push('=') + value);
    assert(line[0] == key[0]);
    assert(line.last() == value.last());
    lemma_bare(line);
    lemma_bare(key);
    lemma_bare(value);
    assert(line.last() != '\r');
    lemma_cut(key, '=', value, CharClass::Exactly('='));
}

/// A line without an equals sign, or without a value, gives nothing.
pub proof fn law_other_report_lines(fields: Map<Seq<char>, Seq<char>>, line: Seq<char>)
    requires
        line.len() > 0,
        !is_space(line[0]),
        !is_space(line.last()),
        forall|i: int| 0 <= i < line.len() ==> #[trigger] line[i] != '=',
    ensures
        with_field(fields, line) == fields,
{
    lemma_bare(line);
    assert(line.last() != '\r');
    lemma_uncut(line, CharClass::Exactly('='));
}

/// The fields of a report are read line by line, each on top of those before.
pub proof fn law_report_in_order(all: Seq<Seq<char>>, line: Seq<char>)
    ensures
        fields_of(all.push(line)) == with_field(fields_of(all), line),
        fields_of(Seq::empty()) == Map::<Seq<char>, Seq<char>>::empty(),
{
    assert(all.push(line).drop_last() =~= all);
}

/// What a report says of a device is what it says under each key; a device is known by its SKU,
/// the platform in that SKU, and a tree of parameters.
pub proof fn law_report(fields: Map<Seq<char>, Seq<char>>)
    ensures
        !fields.dom().contains("sku"@) ==> report_of(fields) == Err::<
            ReportView,
            DiscoveryErrorView,
        >(DiscoveryErrorView::NoSku),
        report_of(fields) matches Ok(r) ==> {
            &&& fields.dom().contains("sku"@)
            &&& r.sku == fields["sku"@]
            &&& platform_code_of(r.sku) == Some(r.platform_code)
            &&& fields.dom().contains("hostname"@) ==> r.hostname == Some(fields["hostname"@])
            &&& !fields.dom().contains("hostname"@) ==> r.hostname is None
            &&& fields.dom().contains("voxl_px4"@) ==> r.px4_package == Some(fields["voxl_px4"@])
            &&& !fields.dom().contains("voxl_px4"@) ==> r.px4_package is None
            &&& fields.dom().contains("voxl_px4_params"@) ==> r.params_package == Some(
                fields["voxl_px4_params"@],
            )
            &&& !fields.dom().contains("voxl_px4_params"@) ==> r.params_package is None
            &&& fields.dom().contains("platform_key"@) ==> r.platform_key == Some(
                fields["platform_key"@],
            )
            &&& !fields.dom().contains("param_file"@) ==> r.param_files.len() == 0
            &&& fields.dom().contains("param_file"@) ==> r.param_files == filled_items(
                split_on(fields["param_file"@], ','),
            )
            &&& params_tree_of(
                r.px4_package,
                if fields.dom().contains("param_tree"@) {
                    filled_items(split_on(fields["param_tree"@], ','))
                } else {
                    Seq::empty()
                },
            ) == Ok::<Seq<char>, NoTrees>(r.params_tree)
        },
        fields.dom().contains("sku"@) && fields["sku"@].len() > 0 && platform_code_of(
            fields["sku"@],
        ) is None ==> report_of(fields) == Err::<ReportView, DiscoveryErrorView>(
            DiscoveryErrorView::NoPlatformCode { sku: fields["sku"@] },
        ),
{
}

/// Without a report nothing is discovered; with both ways asked for, the discovery is refused.
pub proof fn law_discovered(text: Seq<char>)
    ensures
        discovered(true, Some(text)) == Err::<Option<ReportView>, DiscoveryErrorView>(
            DiscoveryErrorView::BothTransports,
        ),
        discovered(true, None) is Err,
        discovered(false, None) == Ok::<Option<ReportView>, DiscoveryErrorView>(None),
        report_of(fields_of(lines_of(text))) matches Ok(r) ==> discovered(false, Some(text)) == Ok::<
            Option<ReportView>,
            DiscoveryErrorView,
        >(Some(r)),
        report_of(fields_of(lines_of(text))) is Err ==> discovered(false, Some(text)) is Err,
{
}

/// The items of a list are those that are not blank, without white space around them, in order.
pub proof fn law_items(items: Seq<Seq<char>>, item: Seq<char>)
    ensures
        filled_items(Seq::empty()).len() == 0,
        trimmed(item).len() > 0 ==> filled_items(items.push(item)) == filled_items(items).push(
            trimmed(item),
        ),
        trimmed(item).len() == 0 ==> filled_items(items.push(item)) == filled_items(items),
{
    assert(items.push(item).drop_last() =~= items);
}

/// The platform is the letter D with four digits where it stands first in the SKU.
pub proof fn law_platform_code(s: Seq<char>, i: int)
    ensures
        platform_code_of(s) matches Some(code) ==> code.len() == 5 && code[0] == 'D' && is_digit(
            code[1],
        ) && is_digit(code[2]) && is_digit(code[3]) && is_digit(code[4]),
        0 <= i && i + 5 <= s.len() && s[i] == 'D' && is_digit(s[i + 1]) && is_digit(s[i + 2])
            && is_digit(s[i + 3]) && is_digit(s[i + 4]) && (forall|j: int|
            0 <= j < i ==> !#[trigger] code_at(s, j)) ==> platform_code_of(s) == Some(
            s.subrange(i, i + 5),
        ),
        platform_code_of(s) is None ==> !code_at(s, i),
{
    if 0 <= i && code_at(s, i) && (forall|j: int| 0 <= j < i ==> !#[trigger] code_at(s, j)) {
        assert(first_code_at(s, i));
        let k = choose|k: int| first_code_at(s, k);
        assert(code_at(s, k));
        if k < i {
            assert(!code_at(s, k));
        }
        if i < k {
            assert(!code_at(s, i));
        }
    }
    if platform_code_of(s) is Some {
        let j = choose|j: int| #[trigger] code_at(s, j);
        lemma_first_code(s, j);
        let k = choose|k: int| first_code_at(s, k);
        assert(code_at(s, k));
    }
}

proof fn lemma_first_code(s: Seq<char>, i: int)
    requires
        code_at(s, i),
    ensures
        exists|k: int| first_code_at(s, k),
    decreases i,
{
    if forall|j: int| 0 <= j < i ==> !#[trigger] code_at(s, j) {
        assert(first_code_at(s, i));
    } else {
        let j = choose|j: int| 0 <= j < i && #[trigger] code_at(s, j);
        lemma_first_code(s, j);
    }
}

/// The tree that a package names is its first two numbers; it counts where it is installed or
/// nothing is known to be, and otherwise the last of the installed trees does.
pub proof fn law_params_tree(
    major: Seq<char>,
    minor: Seq<char>,
    rest: Seq<char>,
    trees: Seq<Seq<char>>,
)
    requires
        all_digits(major),
        all_digits(minor),
    ensures
        tree_of_package(major + "."@ + minor) == Some("v"@ + major + "."@ + minor),
        tree_of_package(major + "."@ + minor + "-"@ + rest) == Some("v"@ + major + "."@ + minor),
        tree_of_package(major + "."@ + minor + "."@ + minor + "-"@ + rest) == Some(
            "v"@ + major + "."@ + minor,
        ),
        ({
            let named = "v"@ + major + "."@ + minor;
            let chosen = params_tree_of(Some(major + "."@ + minor), trees);
            &&& trees.len() == 0 || trees.contains(named) ==> chosen == Ok::<Seq<char>, NoTrees>(
                named,
            )
            &&& trees.len() > 0 && !trees.contains(named) ==> chosen == Ok::<Seq<char>, NoTrees>(
                sorted_texts(trees).last(),
            )
        }),
        trees.len() == 0 ==> params_tree_of(None, trees) is Err,
        trees.len() > 0 ==> params_tree_of(None, trees) == Ok::<Seq<char>, NoTrees>(
            sorted_texts(trees).last(),
        ),
{
    reveal_strlit(".");
    reveal_strlit("-");
    let two = major + "."@ + minor;
    let three = two + "."@ + minor;
    let dash = CharClass::Exactly('-');
    let dot = CharClass::Exactly('.');
    assert forall|i: int| 0 <= i < two.len() implies !dash.has(#[trigger] two[i]) by {
        if i < major.len() {
            assert(is_digit(major[i]));
        } else if i > major.len() {
            assert(is_digit(minor[i - major.len() - 1]));
        }
    }
    assert forall|i: int| 0 <= i < three.len() implies !dash.has(#[trigger] three[i]) by {
        if i < two.len() {
            assert(three[i] == two[i]);
        } else if i > two.len() {
            assert(is_digit(minor[i - two.len() - 1]));
        }
    }
    lemma_uncut(two, dash);
    assert(two + "-"@ + rest =~= two.push('-') + rest);
    lemma_cut(two, '-', rest, dash);
    assert(three + "-"@ + rest =~= three.push('-') + rest);
    lemma_cut(three, '-', rest, dash);
    assert forall|i: int| 0 <= i < major.len() implies !dot.has(#[trigger] major[i]) by {
        assert(is_digit(major[i]));
    }
    assert forall|i: int| 0 <= i < minor.len() implies !dot.has(#[trigger] minor[i]) by {
        assert(is_digit(minor[i]));
    }
    lemma_split_two(major, minor, '.');
    assert(two =~= major.push('.') + minor);
    let tail = minor.push('.') + minor;
    assert(three =~= major.push('.') + tail);
    lemma_split_two(minor, minor, '.');
    lemma_split_front(major, tail, '.');
    assert(split_on(two, '.')[0] == major && split_on(two, '.')[1] == minor);
    assert(split_on(three, '.')[0] == major && split_on(three, '.')[1] == minor);
}

proof fn lemma_split_front(a: Seq<char>, rest: Seq<char>, c: char)
    requires
        forall|i: int| 0 <= i < a.len() ==> !CharClass::Exactly(c).has(#[trigger] a[i]),
    ensures
        split_on(a.push(c) + rest, c) == seq![a] + split_on(rest, c),
{
    let s = a.push(c) + rest;
    assert forall|j: int| 0 <= j < a.len() implies !CharClass::Exactly(c).has(#[trigger] s[j]) by {
        assert(s[j] == a[j]);
    }
    lemma_first_at(s, CharClass::Exactly(c), a.len() as int);
    assert(s.take(a.len() as int) =~= a);
    assert(s.skip(a.len() as int + 1) =~= rest);
}

proof fn lemma_split_two(a: Seq<char>, b: Seq<char>, c: char)
    requires
        forall|i: int| 0 <= i < a.len() ==> !CharClass::Exactly(c).has(#[trigger] a[i]),
        forall|i: int| 0 <= i < b.len() ==> !CharClass::Exactly(c).has(#[trigger] b[i]),
    ensures
        split_on(a.push(c) + b, c) == seq![a, b],
{
    lemma_split_front(a, b, c);
    lemma_first_at(b, CharClass::Exactly(c), b.len() as int);
    assert(seq![a] + seq![b] =~= seq![a, b]);
}

/// Versions agree up to white space and a leading v; what is unknown agrees with nothing.
pub proof fn law_versions(a: Seq<char>, b: Seq<char>)
    requires
        a.len() > 0,
        !is_space(a[0]),
        !is_space(a.last()),
        a[0] != 'v',
        b.len() > 0,
        !is_space(b[0]),
        !is_space(b.last()),
        b[0] != 'v',
    ensures
        same_version(Some(a), Some(b)) <==> a == b,
        same_version(Some("v"@ + a), Some(b)) <==> a == b,
        same_version(Some(a), Some("v"@ + b)) <==> a == b,
        !same_version(None, Some(b)),
        !same_version(Some(a), None),
        !same_version(None, None),
{
    reveal_strlit("v");
    lemma_plain(a);
    lemma_plain(b);
}

proof fn lemma_plain(a: Seq<char>)
    requires
        a.len() > 0,
        !is_space(a[0]),
        !is_space(a.last()),
        a[0] != 'v',
    ensures
        plain_version(a) == a,
        plain_version("v"@ + a) == a,
{
    reveal_strlit("v");
    lemma_bare(a);
    let v = "v"@ + a;
    assert(v.last() == a.last());
    assert(v[0] == 'v');
    lemma_bare(v);
    law_after_prefix("v"@, a);
    if "v"@.is_prefix_of(a) {
        assert(a.take(1)[0] == "v"@[0]);
    }
}

/// The version of a checkout is the first tag that agrees with the version of the device, else the
/// first that starts with a v, else the first, else its description, else its commit; the commit
/// stands beside it.
pub proof fn law_local_version(
    git: Seq<char>,
    tags: Seq<Seq<char>>,
    device: Seq<char>,
    description: Option<Seq<char>>,
    i: int,
)
    ensures
        0 <= i < tags.len() && plain_version(device) == plain_version(tags[i]) && (forall|k: int|
            0 <= k < i ==> plain_version(#[trigger] tags[k]) != plain_version(device))
            ==> chosen_tag(tags, Some(device)) == Some(tags[i]),
        (forall|k: int|
            0 <= k < tags.len() ==> plain_version(#[trigger] tags[k]) != plain_version(device))
            ==> chosen_tag(tags, Some(device)) == chosen_tag(tags, None),
        0 <= i < tags.len() && "v"@.is_prefix_of(tags[i]) && (forall|k: int|
            0 <= k < i ==> !"v"@.is_prefix_of(#[trigger] tags[k])) ==> chosen_tag(tags, None)
            == Some(tags[i]),
        tags.len() > 0 && (forall|k: int|
            0 <= k < tags.len() ==> !"v"@.is_prefix_of(#[trigger] tags[k])) ==> chosen_tag(
            tags,
            None,
        ) == Some(tags[0]),
        tags.len() == 0 ==> chosen_tag(tags, Some(device)) is None,
        repo_version(None, None, description, Some(device)) is None,
        repo_version(Some(git), None, description, Some(device)) matches Some(v) && v.git == git
            && v.version == (match description {
            Some(d) => d,
            None => git,
        }),
{
    lemma_tag_for(tags, device, i);
    lemma_version_tag(tags, i);
}

proof fn lemma_tag_for(tags: Seq<Seq<char>>, version: Seq<char>, i: int)
    ensures
        0 <= i < tags.len() && plain_version(version) == plain_version(tags[i]) && (forall|k: int|
            0 <= k < i ==> plain_version(#[trigger] tags[k]) != plain_version(version)) ==> tag_for(
            tags,
            version,
        ) == Some(tags[i]),
        (forall|k: int|
            0 <= k < tags.len() ==> plain_version(#[trigger] tags[k]) != plain_version(version))
            ==> tag_for(tags, version) is None,
    decreases tags.len(),
{
    if tags.len() > 0 {
        let rest = tags.drop_first();
        lemma_tag_for(rest, version, i - 1);
        assert forall|k: int| 0 <= k < rest.len() implies #[trigger] rest[k] == tags[k + 1] by {}
    }
}

proof fn lemma_version_tag(tags: Seq<Seq<char>>, i: int)
    ensures
        0 <= i < tags.len() && "v"@.is_prefix_of(tags[i]) && (forall|k: int|
            0 <= k < i ==> !"v"@.is_prefix_of(#[trigger] tags[k])) ==> version_tag(tags) == Some(
            tags[i],
        ),
        (forall|k: int| 0 <= k < tags.len() ==> !"v"@.is_prefix_of(#[trigger] tags[k]))
            ==> version_tag(tags) is None,
    decreases tags.len(),
{
    if tags.len() > 0 {
        let rest = tags.drop_first();
        lemma_version_tag(rest, i - 1);
        assert forall|k: int| 0 <= k < rest.len() implies #[trigger] rest[k] == tags[k + 1] by {}
    }
}

/// The output of a command counts where it succeeded and said something.
pub proof fn law_printed(output: Seq<char>)
    ensures
        printed(false, output) is None,
        trimmed(output).len() == 0 ==> printed(true, output) is None,
        trimmed(output).len() > 0 ==> printed(true, output) == Some(trimmed(output)),
{
}

/// A line of a parameter file has five words: the third is the parameter, the fourth the value.
/// Comments and other lines give nothing, and so does an unwanted parameter.
pub proof fn law_param_line(
    defaults: Map<Seq<char>, Seq<char>>,
    line: Seq<char>,
    words: Seq<Seq<char>>,
    wanted: Set<Seq<char>>,
    other: Seq<char>,
)
    requires
        forall|i: int| 0 <= i < line.len() ==> #[trigger] line[i] != '#',
        words_of(trimmed(line)) == words,
    ensures
        ({
            let next = with_param_line(defaults, line, wanted);
            &&& words.len() < 5 ==> next == defaults
            &&& words.len() >= 5 && !wanted.contains(words[2]) ==> next == defaults
            &&& words.len() >= 5 && wanted.contains(words[2]) ==> next.dom().contains(words[2])
                && next[words[2]] == words[3]
            &&& words.len() >= 5 && other != words[2] ==> (next.dom().contains(other)
                <==> defaults.dom().contains(other))
            &&& words.len() >= 5 && other != words[2] && defaults.dom().contains(other)
                ==> next[other] == defaults[other]
            &&& with_param_line(defaults, line.push('#') + other, wanted) == next
        }),
{
    lemma_uncut(line, CharClass::Exactly('#'));
    lemma_cut(line, '#', other, CharClass::Exactly('#'));
}

/// A parameter file is read line by line, each on top of those before.
pub proof fn law_param_file_in_order(
    all: Seq<Seq<char>>,
    line: Seq<char>,
    wanted: Set<Seq<char>>,
)
    ensures
        param_file_defaults(all.push(line), wanted) == with_param_line(
            param_file_defaults(all, wanted),
            line,
            wanted,
        ),
        param_file_defaults(Seq::empty(), wanted) == Map::<Seq<char>, Seq<char>>::empty(),
{
    assert(all.push(line).drop_last() =~= all);
}

/// The layers are those of the files, in the order of the stack, without files that set nothing
/// wanted; each names its platform and its file, and none is a fallback.
pub proof fn law_stack_layers(
    files: Seq<StackText>,
    file: StackText,
    code: Seq<char>,
    wanted: Set<Seq<char>>,
    name: Seq<char>,
)
    ensures
        ({
            let before = file_layers(files, code, wanted);
            let after = file_layers(files.push(file), code, wanted);
            let set = param_file_defaults(lines_of(file.text@), wanted);
            &&& set.dom().contains(name) ==> after.len() == before.len() + 1 && after.drop_last()
                == before && after.last().defaults == set && after.last().source == "VOXL "@ + code
                + " default ("@ + file.label@ + ")"@ && !after.last().fallback
            &&& (forall|k: Seq<char>| !set.dom().contains(k)) ==> after == before
        }),
        file_layers(Seq::empty(), code, wanted).len() == 0,
{
    assert(files.push(file).drop_last() =~= files);
    let set = param_file_defaults(lines_of(file.text@), wanted);
    if set.dom().contains(name) {
        assert(!Set::<Seq<char>>::empty().contains(name));
        let after = file_layers(files.push(file), code, wanted);
        assert(after.drop_last() =~= file_layers(files, code, wanted));
    }
    if forall|k: Seq<char>| !set.dom().contains(k) {
        assert(set.dom() =~= Set::<Seq<char>>::empty());
    }
}

/// The stack is that which the device reports, in its order, where every file is present;
/// otherwise the first that is missing is named.
pub proof fn law_reported_stack(
    reported: Seq<ReportedFile>,
    names: Option<Seq<Seq<char>>>,
    code: Seq<char>,
    i: int,
)
    requires
        0 <= i < reported.len() <= usize::MAX,
    ensures
        (forall|k: int| 0 <= k < reported.len() ==> (#[trigger] reported[k]).present) ==> stack_of(
            reported,
            names,
            code,
        ) is Ok && (stack_of(reported, names, code)->Ok_0).len() == reported.len() && (stack_of(
            reported,
            names,
            code,
        )->Ok_0)[i] == reported[i].relative@,
        !reported[i].present && (forall|k: int|
            0 <= k < i ==> (#[trigger] reported[k]).present) ==> stack_of(reported, names, code)
            == Err::<Seq<Seq<char>>, StackErrorView>(StackErrorView::Missing { index: i as usize }),
{
    lemma_first_missing(reported, i);
}

proof fn lemma_first_missing(files: Seq<ReportedFile>, i: int)
    ensures
        (forall|k: int| 0 <= k < files.len() ==> (#[trigger] files[k]).present) ==> first_missing(
            files,
        ) is None,
        0 <= i < files.len() && !files[i].present && (forall|k: int|
            0 <= k < i ==> (#[trigger] files[k]).present) ==> first_missing(files) == Some(i),
    decreases files.len(),
{
    if files.len() > 0 {
        let rest = files.drop_last();
        lemma_first_missing(rest, i);
        assert forall|k: int| 0 <= k < rest.len() implies #[trigger] rest[k] == files[k] by {}
        if 0 <= i < files.len() && (forall|k: int| 0 <= k < i ==> (#[trigger] files[k]).present) {
            if i == files.len() - 1 {
                assert(forall|k: int| 0 <= k < rest.len() ==> (#[trigger] rest[k]).present);
            }
        }
        if forall|k: int| 0 <= k < files.len() ==> (#[trigger] files[k]).present {
            assert(files[files.len() - 1].present);
            assert(forall|k: int| 0 <= k < rest.len() ==> (#[trigger] rest[k]).present);
        }
    }
}

/// Without a reported stack, the one parameter file of the platform counts; none or several are
/// errors.
pub proof fn law_platform_stack(names: Seq<Seq<char>>, code: Seq<char>, name: Seq<char>)
    ensures
        stack_of(Seq::empty(), None, code) == Err::<Seq<Seq<char>>, StackErrorView>(
            StackErrorView::NoTree,
        ),
        platform_names(names, code).len() == 0 ==> stack_of(Seq::empty(), Some(names), code)
            == Err::<Seq<Seq<char>>, StackErrorView>(StackErrorView::NoPlatformFile),
        platform_names(names, code) == seq![name] ==> stack_of(Seq::empty(), Some(names), code)
            == Ok::<Seq<Seq<char>>, StackErrorView>(seq!["platforms/"@ + name]),
        platform_names(names, code).len() > 1 ==> stack_of(Seq::empty(), Some(names), code) is Err
            && (stack_of(Seq::empty(), Some(names), code)->Err_0) is Ambiguous,
        platform_names(names.push(name), code) == if is_params_name(name) && code.is_prefix_of(
            name,
        ) {
            platform_names(names, code).push(name)
        } else {
            platform_names(names, code)
        },
{
    law_sorted_texts(platform_names(names, code));
    assert(names.push(name).drop_last() =~= names);
    if platform_names(names, code) == seq![name] {
        let one = seq![name];
        assert(one.drop_last() =~= Seq::empty());
        assert(sorted_texts(one.drop_last()) =~= Seq::empty());
        assert(sorted_texts(one) =~= seq![name]);
    }
}

/// What is known of a discovery is what was found: its parts are kept as they are, and the file of
/// the platform is the first in the stack that its code starts.
pub proof fn law_complete_discovery(
    transport: String,
    report: VoxlReport,
    params_source: String,
    param_files: Vec<ParamFile>,
    local_px4_package: Option<LocalRepoVersion>,
    local_params_package: Option<LocalRepoVersion>,
    r: VoxlDiscovery,
    i: int,
)
    requires
        param_files@.len() > 0,
        call_ensures(
            complete_discovery,
            (
                transport,
                report,
                params_source,
                param_files,
                local_px4_package,
                local_params_package,
            ),
            r,
        ),
        0 <= i < param_files@.len(),
        param_files@[i].name is Some,
        report.platform_code@.is_prefix_of(param_files@[i].name->0@),
        forall|k: int|
            0 <= k < i ==> ((#[trigger] param_files@[k]).name matches Some(n)
                ==> !report.platform_code@.is_prefix_of(n@)),
    ensures
        r.platform_file.path@ == param_files@[i].path@,
        r.param_files == param_files,
        r.report == report,
        r.transport == transport,
        r.local_px4_package == local_px4_package,
        r.local_params_package == local_params_package,
{
    lemma_first_named(param_files@, report.platform_code@, i);
    assert(r.platform_file@ == param_files@[i]@);
}

proof fn lemma_first_named(files: Seq<ParamFile>, code: Seq<char>, i: int)
    requires
        0 <= i < files.len(),
        files[i].name is Some,
        code.is_prefix_of(files[i].name->0@),
        forall|k: int|
            0 <= k < i ==> ((#[trigger] files[k]).name matches Some(n) ==> !code.is_prefix_of(n@)),
    ensures
        first_named(files, code) == Some(i),
    decreases files.len(),
{
    let rest = files.drop_last();
    if i < rest.len() {
        assert forall|k: int| 0 <= k < i implies ((#[trigger] rest[k]).name matches Some(n)
            ==> !code.is_prefix_of(n@)) by {
            assert(rest[k] == files[k]);
        }
        lemma_first_named(rest, code, i);
    } else {
        lemma_none_named(rest, code);
    }
}

proof fn lemma_none_named(files: Seq<ParamFile>, code: Seq<char>)
    requires
        forall|k: int|
            0 <= k < files.len() ==> ((#[trigger] files[k]).name matches Some(n)
                ==> !code.is_prefix_of(n@)),
    ensures
        first_named(files, code) is None,
    decreases files.len(),
{
    if files.len() > 0 {
        let rest = files.drop_last();
        assert forall|k: int| 0 <= k < rest.len() implies ((#[trigger] rest[k]).name matches Some(n)
            ==> !code.is_prefix_of(n@)) by {
            assert(rest[k] == files[k]);
        }
        lemma_none_named(rest, code);
        assert(files[files.len() - 1].name matches Some(n) ==> !code.is_prefix_of(n@));
    }
}

/// A device is reached by SSH under its target, or by ADB under its serial number where one is
/// given; the script is what runs there.
pub proof fn law_commands(target: Seq<char>, serial: Seq<char>, script: Seq<char>)
    ensures
        command_of(None, None, script) is None,
        command_of(Some(target), None, script) matches Some((program, arguments)) && program
            == "ssh"@ && arguments.len() == 6 && arguments[4] == target && arguments[5] == script,
        serial.len() > 0 ==> (command_of(None, Some(Some(serial)), script) matches Some(
            (program, arguments),
        ) && program == "adb"@ && arguments == seq!["-s"@, serial, "shell"@, script]),
        command_of(None, Some(None), script) matches Some((program, arguments)) && program
            == "adb"@ && arguments == seq!["shell"@, script],
        transport_of(Some(target), None) == Some("ssh:"@ + target),
        serial.len() > 0 ==> transport_of(None, Some(Some(serial))) == Some("adb:"@ + serial),
        transport_of(None, Some(None)) == Some("adb"@),
        transport_of(None, None) is None,
        start_line(Some(target), None) == Some("VOXL discovery: probing ssh:"@ + target),
        serial.len() > 0 ==> start_line(None, Some(Some(serial))) == Some(
            "VOXL discovery: probing adb:"@ + serial,
        ),
{
}

/// The lines on a discovery tell the device and its stack, then for each of the two packages the
/// version on the device beside the local one.
pub proof fn law_status_lines(d: &VoxlDiscovery)
    ensures
        status_lines(Some(d)).len() == 4,
        status_lines(Some(d))[2] == version_line(
            "voxl-px4"@,
            opt_text(d.report.px4_package),
            opt_repo(d.local_px4_package),
        ),
        status_lines(Some(d))[3] == version_line(
            "voxl-px4-params"@,
            opt_text(d.report.params_package),
            opt_repo(d.local_params_package),
        ),
        status_lines(None).len() == 1,
{
}

/// A file of the stack is labelled by its path below the tree, else by its name.
pub proof fn law_stack_label(relative: Seq<char>, name: Option<Seq<char>>)
    ensures
        stack_label(Some(relative), name) == relative,
        name is Some ==> stack_label(None, name) == name->0,
        stack_label(None, None) == "unknown"@,
{
}

} // verus!
