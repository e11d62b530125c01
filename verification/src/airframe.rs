//! Airframe scripts: the defaults that they set, and the scripts that they source.

use vstd::prelude::*;

use crate::numeral::{decimal_int, int_text};
use crate::table::{extend_texts, lemma_finite, TextMap, TextSet};
use crate::text::{
    after_prefix, from_chars, has_prefix, head_before, is_str, join, joined, lines, lines_of,
    opt_str, opt_text, split, split_on, strip_prefix, take_before, texts, to_chars, trim, trimmed,
    views, words, words_of, CharClass,
};

verus! {

/// The parts of a path that name something.
pub open spec fn named_parts(parts: Seq<Seq<char>>) -> Seq<Seq<char>>
    decreases parts.len(),
{
    if parts.len() == 0 {
        Seq::empty()
    } else {
        let before = named_parts(parts.drop_last());
        if parts.last().len() == 0 || parts.last() == "."@ {
            before
        } else {
            before.push(parts.last())
        }
    }
}

/// What a path starts with, besides the parts that name something: the root, or the directory
/// that relative paths start from.
pub open spec fn path_start(path: Seq<char>) -> Seq<char> {
    if "/"@.is_prefix_of(path) {
        "/"@
    } else if split_on(path, '/')[0] == "."@ {
        "./"@
    } else {
        ""@
    }
}

/// What tells paths apart: neither repeated slashes nor a slash at the end do, nor dots but one
/// at the start.
pub open spec fn path_key(path: Seq<char>) -> Seq<char> {
    path_start(path) + joined(named_parts(split_on(path, '/')), "/"@)
}

fn key_of_path(path: &str) -> (r: String)
    ensures
        r@ == path_key(path@),
{
    let c = to_chars(path);
    let parts = split(c.as_slice(), '/');
    let ghost all = split_on(path@, '/');
    let mut out: Vec<String> = Vec::new();
    assert(texts(out@) =~= Seq::empty());
    for i in 0..parts.len()
        invariant
            views(parts@) == all,
            texts(out@) == named_parts(all.take(i as int)),
    {
        proof {
            assert(all.take(i + 1).drop_last() =~= all.take(i as int));
            assert(all.take(i + 1).last() == views(parts@)[i as int]);
            assert(all.take(i + 1).last() == parts@[i as int]@);
        }
        let part = parts[i];
        if part.len() > 0 && !is_str(part, ".") {
            let ghost before = out@;
            out.push(from_chars(part));
            assert(texts(out@) =~= texts(before).push(part@));
        }
    }
    assert(all.take(all.len() as int) =~= all);
    assert(all[0] == parts@[0]@);
    let mut r = if has_prefix(c.as_slice(), "/") {
        String::from_str("/")
    } else if is_str(parts[0], ".") {
        String::from_str("./")
    } else {
        String::from_str("")
    };
    let rest = join(out.as_slice(), "/");
    r.append(rest.as_str());
    r
}

/// A path below a directory; an absolute path stays as it is.
pub open spec fn path_below(dir: Seq<char>, path: Seq<char>) -> Seq<char> {
    if "/"@.is_prefix_of(path) {
        path
    } else if dir.len() == 0 || dir.last() == '/' {
        dir + path
    } else {
        dir + "/"@ + path
    }
}

fn join_path(dir: &str, path: &str) -> (r: String)
    ensures
        r@ == path_below(dir@, path@),
{
    let c = to_chars(path);
    if has_prefix(c.as_slice(), "/") {
        return String::from_str(path);
    }
    let d = to_chars(dir);
    let mut r = String::from_str(dir);
    if d.len() > 0 && d[d.len() - 1] != '/' {
        r.append("/");
    }
    r.append(path);
    r
}

/// The path of the script that a source line names.
pub open spec fn init_source(px4_source: Seq<char>, source: Seq<char>) -> Option<Seq<char>> {
    match after_prefix(source, "${R}etc/init.d/"@) {
        Some(relative) => Some(
            path_below(path_below(px4_source, "ROMFS/px4fmu_common/init.d"@), relative),
        ),
        None => None,
    }
}

/// The path of the script that a source line names, below the directory of start-up scripts in
/// the PX4 source; other sources are not followed.
pub fn resolve_px4_init_source(px4_source: &str, source: &str) -> (r: Option<String>)
    ensures
        opt_text(r) == init_source(px4_source@, source@),
{
    let c = to_chars(source);
    match strip_prefix(c.as_slice(), "${R}etc/init.d/") {
        Some(relative) => {
            let dir = join_path(px4_source, "ROMFS/px4fmu_common/init.d");
            let relative = from_chars(relative);
            Some(join_path(dir.as_str(), relative.as_str()))
        },
        None => None,
    }
}

/// The words of a line before its comment.
pub open spec fn script_words(line: Seq<char>) -> Seq<Seq<char>> {
    words_of(trimmed(head_before(line, CharClass::Exactly('#'))))
}

/// Whether a line sets a default: its words are `param set-default`, a name and a value.
pub open spec fn sets_default(parts: Seq<Seq<char>>) -> bool {
    parts.len() >= 4 && parts[0] == "param"@ && parts[1] == "set-default"@
}

/// Whether a line sources another script.
pub open spec fn sources_script(parts: Seq<Seq<char>>) -> bool {
    parts.len() >= 2 && parts[0] == "."@
}

/// The paths whose scripts are not visited yet.
pub open spec fn unvisited(all: Set<Seq<char>>, visited: Set<Seq<char>>) -> Set<Seq<char>> {
    all.filter(|path: Seq<char>| !visited.contains(path_key(path)))
}

/// The defaults that a script sets, or the path of a script that is missing; and the keys of the
/// scripts that were visited. A script is visited once.
pub open spec fn run_script(
    files: Map<Seq<char>, Seq<char>>,
    px4_source: Seq<char>,
    path: Seq<char>,
    wanted: Set<Seq<char>>,
    visited: Set<Seq<char>>,
) -> (Result<Map<Seq<char>, Seq<char>>, Seq<char>>, Set<Seq<char>>)
    decreases unvisited(files.dom(), visited).len(), 0nat,
{
    let key = path_key(path);
    if visited.contains(key) {
        (Ok(Map::empty()), visited)
    } else if !files.dom().finite() || !files.dom().contains(path) {
        (Err(path), visited.insert(key))
    } else {
        proof {
            lemma_fewer(files.dom(), visited, path);
        }
        run_lines(files, px4_source, lines_of(files[path]), wanted, visited.insert(key))
    }
}

/// The defaults that lines of a script set, or the path of a script that is missing; and the keys
/// of the scripts that were visited.
pub open spec fn run_lines(
    files: Map<Seq<char>, Seq<char>>,
    px4_source: Seq<char>,
    all: Seq<Seq<char>>,
    wanted: Set<Seq<char>>,
    visited: Set<Seq<char>>,
) -> (Result<Map<Seq<char>, Seq<char>>, Seq<char>>, Set<Seq<char>>)
    decreases unvisited(files.dom(), visited).len(), all.len(),
{
    if all.len() == 0 {
        (Ok(Map::empty()), visited)
    } else {
        let (before, seen) = run_lines(files, px4_source, all.drop_last(), wanted, visited);
        let parts = script_words(all.last());
        match before {
            Err(e) => (Err(e), seen),
            Ok(defaults) => if sets_default(parts) {
                (
                    Ok(
                        if wanted.contains(parts[2]) {
                            defaults.insert(parts[2], parts[3])
                        } else {
                            defaults
                        },
                    ),
                    seen,
                )
            } else if sources_script(parts) && init_source(px4_source, parts[1]) is Some
                && files.dom().finite() {
                proof {
                    lemma_no_more(files.dom(), visited, seen);
                }
                let (more, seen) = run_script(
                    files,
                    px4_source,
                    init_source(px4_source, parts[1])->0,
                    wanted,
                    visited.union(seen),
                );
                match more {
                    Err(e) => (Err(e), seen),
                    Ok(m) => (Ok(defaults.union_prefer_right(m)), seen),
                }
            } else {
                (Ok(defaults), seen)
            },
        }
    }
}

/// Visiting a script that is not visited yet leaves fewer.
pub proof fn lemma_fewer(all: Set<Seq<char>>, visited: Set<Seq<char>>, path: Seq<char>)
    requires
        all.finite(),
        all.contains(path),
        !visited.contains(path_key(path)),
    ensures
        unvisited(all, visited.insert(path_key(path))).len() < unvisited(all, visited).len(),
{
    let before = unvisited(all, visited);
    let after = unvisited(all, visited.insert(path_key(path)));
    assert(before.contains(path));
    vstd::set_lib::lemma_len_subset(after, before.remove(path));
}

/// Having visited more leaves no more.
pub proof fn lemma_no_more(all: Set<Seq<char>>, visited: Set<Seq<char>>, seen: Set<Seq<char>>)
    requires
        all.finite(),
    ensures
        unvisited(all, visited.union(seen)).len() <= unvisited(all, visited).len(),
{
    vstd::set_lib::lemma_len_subset(
        unvisited(all, visited.union(seen)),
        unvisited(all, visited),
    );
}

proof fn lemma_lines_stop(
    files: Map<Seq<char>, Seq<char>>,
    px4_source: Seq<char>,
    all: Seq<Seq<char>>,
    wanted: Set<Seq<char>>,
    visited: Set<Seq<char>>,
    n: int,
)
    requires
        0 <= n <= all.len(),
        run_lines(files, px4_source, all.take(n), wanted, visited).0 is Err,
    ensures
        run_lines(files, px4_source, all, wanted, visited) == run_lines(
            files,
            px4_source,
            all.take(n),
            wanted,
            visited,
        ),
    decreases all.len() - n,
{
    if n < all.len() {
        assert(all.take(n + 1).drop_last() =~= all.take(n));
        lemma_lines_stop(files, px4_source, all, wanted, visited, n + 1);
    } else {
        assert(all.take(n) =~= all);
    }
}

/// A script that is sourced and missing.
#[derive(Debug)]
pub struct MissingScript {
    /// Its path.
    pub path: String,
}

/// The view of the outcome of a script.
pub open spec fn script_view(r: Result<TextMap<String>, MissingScript>) -> Result<
    Map<Seq<char>, Seq<char>>,
    Seq<char>,
> {
    match r {
        Ok(m) => Ok(m@),
        Err(e) => Err(e.path@),
    }
}

/// Reads the defaults of the wanted parameters that a script sets, itself or through the scripts
/// that it sources. `files` holds the scripts by their paths, `visited` the keys of the paths of
/// those that were visited.
pub fn parse_airframe_script(
    files: &TextMap<String>,
    px4_source: &str,
    path: &str,
    wanted: &TextSet,
    visited: &mut TextSet,
) -> (r: Result<TextMap<String>, MissingScript>)
    ensures
        (script_view(r), final(visited)@) == run_script(
            files@,
            px4_source@,
            path@,
            wanted@,
            old(visited)@,
        ),
        old(visited)@.subset_of(final(visited)@),
    decreases unvisited(files@.dom(), old(visited)@).len(),
{
    let ghost start = visited@;
    let _ = files.len();
    proof {
        lemma_finite(*files);
    }
    if !visited.insert(key_of_path(path)) {
        assert(visited@ =~= start);
        return Ok(TextMap::new());
    }
    let text = match files.get(path) {
        Some(t) => t,
        None => {
            return Err(MissingScript { path: String::from_str(path) });
        },
    };
    proof {
        lemma_fewer(files@.dom(), start, path@);
    }
    let ghost entered = visited@;
    let ghost all = lines_of(text@);
    let chars = to_chars(text.as_str());
    let source = lines(chars.as_slice());
    let mut defaults: TextMap<String> = TextMap::new();
    for i in 0..source.len()
        invariant
            views(source@) == all,
            start == old(visited)@,
            files@.dom().finite(),
            start.subset_of(entered),
            entered.subset_of(visited@),
            unvisited(files@.dom(), entered).len() < unvisited(files@.dom(), start).len(),
            run_script(files@, px4_source@, path@, wanted@, start) == run_lines(
                files@,
                px4_source@,
                all,
                wanted@,
                entered,
            ),
            run_lines(files@, px4_source@, all.take(i as int), wanted@, entered) == (
                Ok::<Map<Seq<char>, Seq<char>>, Seq<char>>(defaults@),
                visited@,
            ),
    {
        proof {
            assert(all.take(i + 1).drop_last() =~= all.take(i as int));
            assert(all.take(i + 1).last() == views(source@)[i as int]);
            assert(all.take(i + 1).last() == source@[i as int]@);
        }
        let line = trim(take_before(source[i], CharClass::Exactly('#')));
        let parts = words(line);
        let ghost list = views(parts@);
        assert(list == script_words(all.take(i + 1).last()));
        if parts.len() >= 4 && is_str(parts[0], "param") && is_str(parts[1], "set-default") {
            assert(list[0] == parts@[0]@ && list[1] == parts@[1]@ && list[2] == parts@[2]@
                && list[3] == parts@[3]@);
            let name = from_chars(parts[2]);
            if wanted.contains(name.as_str()) {
                defaults.insert(name, from_chars(parts[3]));
            }
        } else if parts.len() >= 2 && is_str(parts[0], ".") {
            assert(list[0] == parts@[0]@ && list[1] == parts@[1]@);
            assert(parts@.len() >= 4 ==> list[2] == parts@[2]@);
            assert(!sets_default(list));
            let target = from_chars(parts[1]);
            if let Some(target) = resolve_px4_init_source(px4_source, target.as_str()) {
                proof {
                    lemma_no_more(files@.dom(), entered, visited@);
                    assert(entered.union(visited@) =~= visited@);
                }
                match parse_airframe_script(files, px4_source, target.as_str(), wanted, visited) {
                    Ok(more) => {
                        extend_texts(&mut defaults, &more);
                    },
                    Err(e) => {
                        proof {
                            lemma_lines_stop(files@, px4_source@, all, wanted@, entered, i + 1);
                        }
                        return Err(e);
                    },
                }
            }
        } else {
            assert(parts@.len() >= 1 ==> list[0] == parts@[0]@);
            assert(parts@.len() >= 2 ==> list[1] == parts@[1]@);
        }
    }
    assert(all.take(all.len() as int) =~= all);
    Ok(defaults)
}

/// The first name that starts with the number of the airframe.
pub open spec fn script_named(names: Seq<Seq<char>>, prefix: Seq<char>) -> Option<Seq<char>>
    decreases names.len(),
{
    if names.len() == 0 {
        None
    } else if prefix.is_prefix_of(names[0]) {
        Some(names[0])
    } else {
        script_named(names.drop_first(), prefix)
    }
}

/// Finds the script of an airframe among the names of the files in the directory of airframes.
pub fn find_airframe_script(names: &[String], sys_autostart: i32) -> (r: Option<String>)
    ensures
        opt_text(r) == script_named(texts(names@), decimal_int(sys_autostart as int) + "_"@),
{
    let mut prefix = int_text(sys_autostart as i64);
    prefix.append("_");
    let ghost all = texts(names@);
    assert(all.skip(0) =~= all);
    for i in 0..names.len()
        invariant
            all == texts(names@),
            prefix@ == decimal_int(sys_autostart as int) + "_"@,
            script_named(all, prefix@) == script_named(all.skip(i as int), prefix@),
    {
        assert(all.skip(i as int)[0] == names@[i as int]@);
        let c = to_chars(names[i].as_str());
        if has_prefix(c.as_slice(), prefix.as_str()) {
            return Some(names[i].clone());
        }
        assert(all.skip(i as int).drop_first() =~= all.skip(i + 1));
    }
    None
}

/// The defaults of an airframe, with its own number among them if it is wanted.
pub open spec fn airframe_defaults(
    files: Map<Seq<char>, Seq<char>>,
    px4_source: Seq<char>,
    script: Option<Seq<char>>,
    id: i32,
    wanted: Set<Seq<char>>,
) -> Result<Map<Seq<char>, Seq<char>>, Seq<char>> {
    match script {
        None => Ok(Map::empty()),
        Some(path) => match run_script(files, px4_source, path, wanted, Set::empty()).0 {
            Err(e) => Err(e),
            Ok(m) => Ok(
                if wanted.contains("SYS_AUTOSTART"@) {
                    m.insert("SYS_AUTOSTART"@, decimal_int(id as int))
                } else {
                    m
                },
            ),
        },
    }
}

/// The defaults of an airframe; `script` is the path of its script, if it has one.
pub fn load_airframe_defaults(
    files: &TextMap<String>,
    px4_source: &str,
    script: Option<&str>,
    sys_autostart: i32,
    wanted: &TextSet,
) -> (r: Result<TextMap<String>, MissingScript>)
    ensures
        script_view(r) == airframe_defaults(
            files@,
            px4_source@,
            opt_str(script),
            sys_autostart,
            wanted@,
        ),
{
    let path = match script {
        Some(p) => p,
        None => {
            return Ok(TextMap::new());
        },
    };
    let mut visited = TextSet::new();
    match parse_airframe_script(files, px4_source, path, wanted, &mut visited) {
        Ok(mut defaults) => {
            if wanted.contains("SYS_AUTOSTART") {
                defaults.insert(String::from_str("SYS_AUTOSTART"), int_text(sys_autostart as i64));
            }
            Ok(defaults)
        },
        Err(e) => Err(e),
    }
}

/// The name that a script gives its airframe.
pub open spec fn name_in(all: Seq<Seq<char>>) -> Option<Seq<char>>
    decreases all.len(),
{
    if all.len() == 0 {
        None
    } else {
        match after_prefix(trimmed(all[0]), "# @name "@) {
            Some(name) => Some(name),
            None => name_in(all.drop_first()),
        }
    }
}

/// The name that a script gives its airframe, if it does.
pub fn airframe_name(text: &str) -> (r: Option<String>)
    ensures
        opt_text(r) == name_in(lines_of(text@)),
{
    let chars = to_chars(text);
    let source = lines(chars.as_slice());
    let ghost all = lines_of(text@);
    assert(all.skip(0) =~= all);
    for i in 0..source.len()
        invariant
            views(source@) == all,
            all == lines_of(text@),
            name_in(all) == name_in(all.skip(i as int)),
    {
        assert(all.skip(i as int)[0] == views(source@)[i as int]);
        if let Some(name) = strip_prefix(trim(source[i]), "# @name ") {
            return Some(from_chars(name));
        }
        assert(all.skip(i as int).drop_first() =~= all.skip(i + 1));
    }
    None
}

/// A script sets nothing but wanted parameters, whatever it sources.
pub proof fn law_scripts_set_wanted(
    files: Map<Seq<char>, Seq<char>>,
    px4_source: Seq<char>,
    path: Seq<char>,
    wanted: Set<Seq<char>>,
    visited: Set<Seq<char>>,
    name: Seq<char>,
)
    requires
        run_script(files, px4_source, path, wanted, visited).0 is Ok,
        (run_script(files, px4_source, path, wanted, visited).0->Ok_0).dom().contains(name),
    ensures
        wanted.contains(name),
    decreases unvisited(files.dom(), visited).len(), 0nat,
{
    if !visited.contains(path_key(path)) && files.dom().finite() && files.dom().contains(path) {
        lemma_fewer(files.dom(), visited, path);
        lemma_lines_set_wanted(
            files,
            px4_source,
            lines_of(files[path]),
            wanted,
            visited.insert(path_key(path)),
            name,
        );
    }
}

proof fn lemma_lines_set_wanted(
    files: Map<Seq<char>, Seq<char>>,
    px4_source: Seq<char>,
    all: Seq<Seq<char>>,
    wanted: Set<Seq<char>>,
    visited: Set<Seq<char>>,
    name: Seq<char>,
)
    requires
        run_lines(files, px4_source, all, wanted, visited).0 is Ok,
        (run_lines(files, px4_source, all, wanted, visited).0->Ok_0).dom().contains(name),
    ensures
        wanted.contains(name),
    decreases unvisited(files.dom(), visited).len(), all.len(),
{
    if all.len() > 0 {
        let (before, seen) = run_lines(files, px4_source, all.drop_last(), wanted, visited);
        let parts = script_words(all.last());
        if (before->Ok_0).dom().contains(name) {
            lemma_lines_set_wanted(files, px4_source, all.drop_last(), wanted, visited, name);
        } else if !sets_default(parts) {
            lemma_no_more(files.dom(), visited, seen);
            law_scripts_set_wanted(
                files,
                px4_source,
                init_source(px4_source, parts[1])->0,
                wanted,
                visited.union(seen),
                name,
            );
        }
    }
}

/// A script that was visited before sets nothing, so scripts that source each other come to an
/// end.
pub proof fn law_scripts_run_once(
    files: Map<Seq<char>, Seq<char>>,
    px4_source: Seq<char>,
    path: Seq<char>,
    wanted: Set<Seq<char>>,
    visited: Set<Seq<char>>,
)
    requires
        visited.contains(path_key(path)),
    ensures
        run_script(files, px4_source, path, wanted, visited) == (
            Ok::<Map<Seq<char>, Seq<char>>, Seq<char>>(Map::empty()),
            visited,
        ),
{
}

} // verus!
