//! VOXL devices: what discovery reports, and the parameter files that it selects.

use vstd::prelude::*;

use crate::numeral::{all_digits, is_all_digits};
use crate::table::{law_sorted_texts, sort_texts, sorted_texts, TextMap};
use crate::text::{
    after_prefix, digit, drop_trailing, from_chars, has_prefix, head_before, is_digit, lines,
    lines_of, opt_str, opt_text, same_str, slice_part, split, split_first, split_on, split_once,
    strip_prefix, take_before, texts, to_chars, trim, trim_trailing, trimmed, views, CharClass,
};

verus! {

/// Fields after a line `key=value`: the values of one key stand behind each other, between commas.
pub open spec fn with_field(
    fields: Map<Seq<char>, Seq<char>>,
    line: Seq<char>,
) -> Map<Seq<char>, Seq<char>> {
    match split_first(drop_trailing(trimmed(line), CharClass::Exactly('\r')), CharClass::Exactly('=')) {
        None => fields,
        Some((key, value)) => if trimmed(value).len() == 0 {
            fields
        } else if fields.dom().contains(trimmed(key)) {
            fields.insert(trimmed(key), fields[trimmed(key)].push(',') + trimmed(value))
        } else {
            fields.insert(trimmed(key), trimmed(value))
        },
    }
}

/// The fields of lines.
pub open spec fn fields_of(all: Seq<Seq<char>>) -> Map<Seq<char>, Seq<char>>
    decreases all.len(),
{
    if all.len() == 0 {
        Map::empty()
    } else {
        with_field(fields_of(all.drop_last()), all.last())
    }
}

/// Reads lines `key=value`.
pub fn parse_key_value_lines(text: &str) -> (r: TextMap<String>)
    ensures
        r@ == fields_of(lines_of(text@)),
{
    let chars = to_chars(text);
    let source = lines(chars.as_slice());
    let ghost all = lines_of(text@);
    let mut fields: TextMap<String> = TextMap::new();
    for i in 0..source.len()
        invariant
            views(source@) == all,
            fields@ == fields_of(all.take(i as int)),
    {
        proof {
            assert(all.take(i + 1).drop_last() =~= all.take(i as int));
            assert(all.take(i + 1).last() == views(source@)[i as int]);
            assert(all.take(i + 1).last() == source@[i as int]@);
        }
        let line = trim_trailing(trim(source[i]), CharClass::Exactly('\r'));
        if let Some((key, value)) = split_once(line, CharClass::Exactly('=')) {
            let value = trim(value);
            if value.len() > 0 {
                let key = from_chars(trim(key));
                let value = from_chars(value);
                let joined = match fields.get(key.as_str()) {
                    Some(before) => {
                        let mut both = before.clone();
                        both.push(',');
                        both.append(value.as_str());
                        both
                    },
                    None => value,
                };
                fields.insert(key, joined);
            }
        }
    }
    assert(all.take(all.len() as int) =~= all);
    fields
}

/// Whether a platform code stands at the position: a `D` and four digits.
pub open spec fn code_at(s: Seq<char>, i: int) -> bool {
    0 <= i && i + 5 <= s.len() && s[i] == 'D' && is_digit(s[i + 1]) && is_digit(s[i + 2])
        && is_digit(s[i + 3]) && is_digit(s[i + 4])
}

/// Whether the first platform code stands at the position.
pub open spec fn first_code_at(s: Seq<char>, i: int) -> bool {
    code_at(s, i) && forall|j: int| 0 <= j < i ==> !#[trigger] code_at(s, j)
}

/// The first platform code in a text.
pub open spec fn platform_code_of(s: Seq<char>) -> Option<Seq<char>> {
    if exists|i: int| #[trigger] code_at(s, i) {
        let i = choose|i: int| first_code_at(s, i);
        Some(s.subrange(i, i + 5))
    } else {
        None
    }
}

/// Finds the platform code in the number of an article.
pub fn extract_modalai_platform_code(sku: &str) -> (r: Option<String>)
    ensures
        opt_text(r) == platform_code_of(sku@),
{
    let c = to_chars(sku);
    let n: usize = c.len();
    if n < 5 {
        assert forall|j: int| !#[trigger] code_at(sku@, j) by {}
        return None;
    }
    let mut i: usize = 0;
    while i <= n - 5
        invariant
            n == c@.len(),
            n >= 5,
            c@ == sku@,
            i <= n - 4,
            forall|j: int| 0 <= j < i ==> !#[trigger] code_at(sku@, j),
        decreases n - i,
    {
        if c[i] == 'D' && digit(c[i + 1]) && digit(c[i + 2]) && digit(c[i + 3]) && digit(
            c[i + 4],
        ) {
            proof {
                assert(code_at(sku@, i as int));
                assert(first_code_at(sku@, i as int));
                let k = choose|k: int| first_code_at(sku@, k);
                assert(first_code_at(sku@, k));
                if k < i {
                    assert(!code_at(sku@, k));
                }
                if i < k {
                    assert(!code_at(sku@, i as int));
                }
            }
            return Some(from_chars(slice_part(c.as_slice(), i, i + 5)));
        }
        i = i + 1;
    }
    assert forall|j: int| !#[trigger] code_at(sku@, j) by {}
    None
}

/// Why no parameter tree can be derived: discovery reports no installed one.
#[derive(Clone, Copy, Debug, PartialEq, Eq, Structural)]
pub struct NoTrees;

/// The parameter tree that a package version names.
pub open spec fn tree_of_package(package: Seq<char>) -> Option<Seq<char>> {
    let parts = split_on(head_before(package, CharClass::Exactly('-')), '.');
    if parts.len() >= 2 && all_digits(parts[0]) && all_digits(parts[1]) {
        Some("v"@ + parts[0] + "."@ + parts[1])
    } else {
        None
    }
}

/// The parameter tree of a device: the one that the version of its package names, unless other
/// trees alone are installed; else the last of those in their order.
pub open spec fn params_tree_of(package: Option<Seq<char>>, trees: Seq<Seq<char>>) -> Result<
    Seq<char>,
    NoTrees,
> {
    let named = match package {
        Some(p) => tree_of_package(p),
        None => None,
    };
    if named is Some && (trees.len() == 0 || trees.contains(named->0)) {
        Ok(named->0)
    } else if trees.len() == 0 {
        Err(NoTrees)
    } else {
        Ok(sorted_texts(trees).last())
    }
}

/// The view of a derived tree.
pub open spec fn tree_view(r: Result<String, NoTrees>) -> Result<Seq<char>, NoTrees> {
    match r {
        Ok(s) => Ok(s@),
        Err(e) => Err(e),
    }
}

fn package_tree(package: &str) -> (r: Option<String>)
    ensures
        opt_text(r) == tree_of_package(package@),
{
    let c = to_chars(package);
    let version = take_before(c.as_slice(), CharClass::Exactly('-'));
    let parts = split(version, '.');
    let ghost all = split_on(version@, '.');
    assert(views(parts@) == all);
    if parts.len() >= 2 {
        assert(views(parts@)[0] == parts@[0]@ && views(parts@)[1] == parts@[1]@);
        if is_all_digits(parts[0]) && is_all_digits(parts[1]) {
            let mut out = String::from_str("v");
            let major = from_chars(parts[0]);
            let minor = from_chars(parts[1]);
            out.append(major.as_str());
            out.append(".");
            out.append(minor.as_str());
            return Some(out);
        }
    }
    None
}

fn has_member(list: &[String], x: &str) -> (r: bool)
    ensures
        r == texts(list@).contains(x@),
{
    for i in 0..list.len()
        invariant
            forall|k: int| 0 <= k < i ==> #[trigger] texts(list@)[k] != x@,
    {
        if same_str(list[i].as_str(), x) {
            assert(texts(list@)[i as int] == x@);
            return true;
        }
    }
    false
}

/// Derives the parameter tree of a device.
pub fn derive_voxl_params_tree(px4_package: Option<&str>, param_trees: &[String]) -> (r: Result<
    String,
    NoTrees,
>)
    ensures
        tree_view(r) == params_tree_of(opt_str(px4_package), texts(param_trees@)),
{
    if let Some(package) = px4_package {
        if let Some(tree) = package_tree(package) {
            if param_trees.len() == 0 || has_member(param_trees, tree.as_str()) {
                return Ok(tree);
            }
        }
    }
    if param_trees.len() == 0 {
        return Err(NoTrees);
    }
    let sorted = sort_texts(param_trees);
    proof {
        law_sorted_texts(texts(param_trees@));
        assert(texts(sorted@).len() == sorted@.len());
    }
    let last: usize = sorted.len() - 1;
    assert(texts(sorted@).last() == sorted@[last as int]@);
    Ok(sorted[last].clone())
}

/// A derived tree is an installed one, unless none is reported installed.
pub proof fn law_tree_is_installed(package: Option<Seq<char>>, trees: Seq<Seq<char>>)
    requires
        trees.len() > 0,
    ensures
        params_tree_of(package, trees) is Ok,
        trees.contains(params_tree_of(package, trees)->Ok_0),
{
    broadcast use vstd::seq_lib::group_to_multiset_ensures;
    law_sorted_texts(trees);
    let sorted = sorted_texts(trees);
    assert(sorted.contains(sorted.last()));
    assert(sorted.to_multiset().count(sorted.last()) > 0);
}

/// A version without the space around it and a leading `v`.
pub open spec fn plain_version(version: Seq<char>) -> Seq<char> {
    match after_prefix(trimmed(version), "v"@) {
        Some(rest) => rest,
        None => trimmed(version),
    }
}

/// A version without the space around it and a leading `v`.
pub fn normalize_version(version: &str) -> (r: String)
    ensures
        r@ == plain_version(version@),
{
    let c = to_chars(version);
    let t = trim(c.as_slice());
    match strip_prefix(t, "v") {
        Some(rest) => from_chars(rest),
        None => from_chars(t),
    }
}

/// Whether two versions are known and the same.
pub open spec fn same_version(device: Option<Seq<char>>, local: Option<Seq<char>>) -> bool {
    match (device, local) {
        (Some(d), Some(l)) => plain_version(d) == plain_version(l),
        _ => false,
    }
}

/// Whether two versions are known and the same.
pub fn versions_match(device: Option<&str>, local: Option<&str>) -> (r: bool)
    ensures
        r == same_version(opt_str(device), opt_str(local)),
{
    match (device, local) {
        (Some(d), Some(l)) => {
            let d = normalize_version(d);
            let l = normalize_version(l);
            same_str(d.as_str(), l.as_str())
        },
        _ => false,
    }
}

/// The first tag that is the given version.
pub open spec fn tag_for(tags: Seq<Seq<char>>, version: Seq<char>) -> Option<Seq<char>>
    decreases tags.len(),
{
    if tags.len() == 0 {
        None
    } else if plain_version(version) == plain_version(tags[0]) {
        Some(tags[0])
    } else {
        tag_for(tags.drop_first(), version)
    }
}

/// The first tag that starts with `v`.
pub open spec fn version_tag(tags: Seq<Seq<char>>) -> Option<Seq<char>>
    decreases tags.len(),
{
    if tags.len() == 0 {
        None
    } else if "v"@.is_prefix_of(tags[0]) {
        Some(tags[0])
    } else {
        version_tag(tags.drop_first())
    }
}

/// The tag that names a checkout: the one of the device's version, else a version tag, else the
/// first.
pub open spec fn chosen_tag(tags: Seq<Seq<char>>, preferred: Option<Seq<char>>) -> Option<Seq<char>> {
    let matching = match preferred {
        Some(p) => tag_for(tags, p),
        None => None,
    };
    if matching is Some {
        matching
    } else if version_tag(tags) is Some {
        version_tag(tags)
    } else if tags.len() > 0 {
        Some(tags[0])
    } else {
        None
    }
}

fn find_tag_for(tags: &[String], version: &str) -> (r: Option<String>)
    ensures
        opt_text(r) == tag_for(texts(tags@), version@),
{
    let ghost all = texts(tags@);
    assert(all.skip(0) =~= all);
    for i in 0..tags.len()
        invariant
            all == texts(tags@),
            tag_for(all, version@) == tag_for(all.skip(i as int), version@),
    {
        assert(all.skip(i as int)[0] == tags@[i as int]@);
        if versions_match(Some(version), Some(tags[i].as_str())) {
            return Some(tags[i].clone());
        }
        assert(all.skip(i as int).drop_first() =~= all.skip(i + 1));
    }
    None
}

fn find_version_tag(tags: &[String]) -> (r: Option<String>)
    ensures
        opt_text(r) == version_tag(texts(tags@)),
{
    let ghost all = texts(tags@);
    assert(all.skip(0) =~= all);
    for i in 0..tags.len()
        invariant
            all == texts(tags@),
            version_tag(all) == version_tag(all.skip(i as int)),
    {
        assert(all.skip(i as int)[0] == tags@[i as int]@);
        let c = to_chars(tags[i].as_str());
        if has_prefix(c.as_slice(), "v") {
            return Some(tags[i].clone());
        }
        assert(all.skip(i as int).drop_first() =~= all.skip(i + 1));
    }
    None
}

/// Chooses the tag that names a checkout.
pub fn choose_local_version(tags: &[String], preferred_remote_version: Option<&str>) -> (r: Option<
    String,
>)
    ensures
        opt_text(r) == chosen_tag(texts(tags@), opt_str(preferred_remote_version)),
{
    if let Some(preferred) = preferred_remote_version {
        if let Some(tag) = find_tag_for(tags, preferred) {
            return Some(tag);
        }
    }
    if let Some(tag) = find_version_tag(tags) {
        return Some(tag);
    }
    if tags.len() > 0 {
        assert(texts(tags@)[0] == tags@[0]@);
        Some(tags[0].clone())
    } else {
        None
    }
}

/// The version of a checkout.
#[derive(Debug)]
pub struct LocalRepoVersion {
    /// Its name.
    pub version: String,
    /// Its commit.
    pub git: String,
}

/// The view of the version of a checkout.
pub struct RepoVersionView {
    /// Its name.
    pub version: Seq<char>,
    /// Its commit.
    pub git: Seq<char>,
}

impl View for LocalRepoVersion {
    type V = RepoVersionView;

    open spec fn view(&self) -> RepoVersionView {
        RepoVersionView { version: self.version@, git: self.git@ }
    }
}

/// The view of an optional version of a checkout.
pub open spec fn opt_repo(v: Option<LocalRepoVersion>) -> Option<RepoVersionView> {
    match v {
        Some(x) => Some(x@),
        None => None,
    }
}

/// The view of an optional version of a checkout behind a reference.
pub open spec fn opt_repo_ref(v: Option<&LocalRepoVersion>) -> Option<RepoVersionView> {
    match v {
        Some(x) => Some(x@),
        None => None,
    }
}

/// The version of a checkout, from its commit, the lines of its tags and its description.
pub open spec fn repo_version(
    git: Option<Seq<char>>,
    tags: Option<Seq<char>>,
    description: Option<Seq<char>>,
    preferred: Option<Seq<char>>,
) -> Option<RepoVersionView> {
    match git {
        None => None,
        Some(g) => Some(
            RepoVersionView {
                version: match chosen_tag(
                    match tags {
                        Some(t) => lines_of(t),
                        None => Seq::empty(),
                    },
                    preferred,
                ) {
                    Some(tag) => tag,
                    None => match description {
                        Some(d) => d,
                        None => g,
                    },
                },
                git: g,
            },
        ),
    }
}

fn text_lines(text: &str) -> (r: Vec<String>)
    ensures
        texts(r@) == lines_of(text@),
{
    let c = to_chars(text);
    let source = lines(c.as_slice());
    let mut out: Vec<String> = Vec::new();
    for i in 0..source.len()
        invariant
            out@.len() == i,
            forall|k: int| 0 <= k < i ==> (#[trigger] out@[k])@ == source@[k]@,
    {
        let ghost before = out@;
        out.push(from_chars(source[i]));
        assert forall|k: int| 0 <= k < i + 1 implies (#[trigger] out@[k])@ == source@[k]@ by {
            if k < i {
                assert(out@[k] == before[k]);
            }
        }
    }
    assert(texts(out@) =~= views(source@));
    out
}

/// The version of a checkout: `git` is its commit, `tags` the lines of the tags at the commit and
/// `description` what `git describe` says, each if it is known.
pub fn local_repo_version(
    git: Option<&str>,
    tags: Option<&str>,
    description: Option<&str>,
    preferred_remote_version: Option<&str>,
) -> (r: Option<LocalRepoVersion>)
    ensures
        opt_repo(r) == repo_version(
            opt_str(git),
            opt_str(tags),
            opt_str(description),
            opt_str(preferred_remote_version),
        ),
{
    let g = match git {
        None => {
            return None;
        },
        Some(g) => g,
    };
    let list = match tags {
        Some(t) => text_lines(t),
        None => Vec::new(),
    };
    assert(tags is None ==> texts(list@) =~= Seq::empty());
    let version = match choose_local_version(list.as_slice(), preferred_remote_version) {
        Some(tag) => tag,
        None => match description {
            Some(d) => String::from_str(d),
            None => String::from_str(g),
        },
    };
    Some(LocalRepoVersion { version, git: String::from_str(g) })
}

/// What a command printed, if it succeeded and printed anything.
pub open spec fn printed(success: bool, output: Seq<char>) -> Option<Seq<char>> {
    if success && trimmed(output).len() > 0 {
        Some(trimmed(output))
    } else {
        None
    }
}

/// What a command printed, if it succeeded and printed anything.
pub fn git_output(success: bool, output: &str) -> (r: Option<String>)
    ensures
        opt_text(r) == printed(success, output@),
{
    let c = to_chars(output);
    let t = trim(c.as_slice());
    if success && t.len() > 0 {
        Some(from_chars(t))
    } else {
        None
    }
}

/// How the versions of a package on the device and in the checkout compare.
pub open spec fn version_line(
    name: Seq<char>,
    device: Option<Seq<char>>,
    local: Option<RepoVersionView>,
) -> Seq<char> {
    let unknown = "unknown"@;
    let local_version = match local {
        Some(l) => Some(l.version),
        None => None,
    };
    name + ": status="@ + (if same_version(device, local_version) {
        "match"@
    } else if device is Some && local is Some {
        "mismatch"@
    } else {
        unknown
    }) + " device="@ + (match device {
        Some(d) => d,
        None => unknown,
    }) + " local="@ + (match local {
        Some(l) => l.version,
        None => unknown,
    }) + " git="@ + (match local {
        Some(l) => l.git,
        None => unknown,
    })
}

/// The line on how the versions of a package on the device and in the checkout compare.
pub fn voxl_version_status_line(
    name: &str,
    device_version: Option<&str>,
    local: Option<&LocalRepoVersion>,
) -> (r: String)
    ensures
        r@ == version_line(name@, opt_str(device_version), opt_repo_ref(local)),
{
    let (local_version, local_git) = match local {
        Some(l) => (Some(l.version.as_str()), l.git.as_str()),
        None => (None, "unknown"),
    };
    let mut out = String::from_str(name);
    out.append(": status=");
    out.append(
        if versions_match(device_version, local_version) {
            "match"
        } else if device_version.is_some() && local.is_some() {
            "mismatch"
        } else {
            "unknown"
        },
    );
    out.append(" device=");
    out.append(
        match device_version {
            Some(d) => d,
            None => "unknown",
        },
    );
    out.append(" local=");
    out.append(
        match local_version {
            Some(l) => l,
            None => "unknown",
        },
    );
    out.append(" git=");
    out.append(local_git);
    out
}

} // verus!
