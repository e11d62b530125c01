//! What an airframe gives: which one is chosen, what its scripts set, and when the firmware stands
//! in for it.

use vstd::prelude::*;

use crate::airframe::{
    airframe_defaults, name_in, path_below, path_key, run_lines, run_script, script_named,
    script_words,
};
use crate::baseline::{baseline_airframe, baseline_line, fallback_reason_of, named_airframe};
use crate::csource_laws::spaceless;
use crate::numeral::decimal_int;
use crate::text::{is_space, lines_of, trimmed, words_of, CharClass};
use crate::text_laws::{law_after_prefix, law_words, lemma_bare, lemma_cut, lemma_uncut};

verus! {

/// The airframe that is asked for counts, and that of the device where none is; 0 is named in no
/// status line of its own.
pub proof fn law_airframe_choice(asked: Option<i32>, device: Option<i32>, fallback: bool)
    ensures
        asked is Some ==> baseline_airframe(asked, device) == asked,
        asked is None ==> baseline_airframe(asked, device) == device,
        fallback ==> named_airframe(device, asked, fallback) is None,
        !fallback && asked is Some ==> named_airframe(device, asked, fallback) == asked,
        !fallback && asked is None && device is Some && device->0 != 0 ==> named_airframe(
            device,
            asked,
            fallback,
        ) == device,
        !fallback && asked is None && device == Some(0i32) ==> named_airframe(
            device,
            asked,
            fallback,
        ) is None,
{
}

/// An airframe applies exactly where its number is known and not 0 and its scripts set a wanted
/// parameter besides that number; otherwise there is a reason why not, which names the number.
pub proof fn law_fallback_reason(
    id: Option<i32>,
    airframe: Map<Seq<char>, Seq<char>>,
    wanted: Set<Seq<char>>,
)
    ensures
        fallback_reason_of(id, airframe, wanted) is None <==> (id is Some && id->0 != 0 && exists|
            name: Seq<char>,
        |
            #[trigger] airframe.dom().contains(name) && name != "SYS_AUTOSTART"@ && wanted.contains(
                name,
            )),
        id is None ==> fallback_reason_of(id, airframe, wanted) == Some(
            "device SYS_AUTOSTART was not received"@,
        ),
        id == Some(0i32) ==> fallback_reason_of(id, airframe, wanted) == Some(
            "SYS_AUTOSTART=0 does not select an airframe"@,
        ),
        id is Some && id->0 != 0 && (forall|name: Seq<char>| !airframe.dom().contains(name))
            ==> fallback_reason_of(id, airframe, wanted) == Some(
            "PX4 airframe "@ + decimal_int(id->0 as int) + " was not found"@,
        ),
        id is Some && id->0 != 0 && (exists|name: Seq<char>| airframe.dom().contains(name))
            && fallback_reason_of(id, airframe, wanted) is Some ==> fallback_reason_of(
            id,
            airframe,
            wanted,
        ) == Some(
            "PX4 airframe "@ + decimal_int(id->0 as int) + " has no matching parameter defaults"@,
        ),
{
    if forall|name: Seq<char>| !airframe.dom().contains(name) {
        assert(airframe.dom() =~= Set::<Seq<char>>::empty());
    }
    if exists|name: Seq<char>| airframe.dom().contains(name) {
        let name = choose|name: Seq<char>| airframe.dom().contains(name);
        assert(!Set::<Seq<char>>::empty().contains(name));
    }
}

/// The line on the baseline names the airframe that is compared against, by its number and its
/// name, and how it was chosen; with a reason to fall back it gives the reason.
pub proof fn law_baseline_line(
    device: Option<i32>,
    asked: Option<i32>,
    name: Seq<char>,
    reason: Seq<char>,
)
    ensures
        baseline_line(device, asked, Some(name), Some(reason))
            == "Baseline: QGC-style firmware defaults only; airframe-specific defaults not applied ("@
            + reason + ")"@,
        asked is Some && device == asked ==> baseline_line(device, asked, Some(name), None)
            == "Baseline: PX4 airframe "@ + decimal_int(asked->0 as int) + " ("@ + name + ")"@
            + " via --sys-autostart"@,
        asked is Some && device is None ==> baseline_line(device, asked, Some(name), None)
            == "Baseline: PX4 airframe "@ + decimal_int(asked->0 as int) + " ("@ + name + ")"@
            + " via --sys-autostart"@,
        asked is Some && device is Some && device != asked ==> baseline_line(
            device,
            asked,
            Some(name),
            None,
        ) == "Baseline: PX4 airframe "@ + decimal_int(asked->0 as int) + " ("@ + name + ")"@
            + " via --sys-autostart; device SYS_AUTOSTART="@ + decimal_int(device->0 as int),
        asked is None && device is Some && device->0 != 0 ==> baseline_line(
            device,
            asked,
            Some(name),
            None,
        ) == "Baseline: PX4 airframe "@ + decimal_int(device->0 as int) + " ("@ + name + ")"@
            + " from device SYS_AUTOSTART"@,
{
}

/// What stands behind a number sign is a comment, and white space around a line does not matter.
pub proof fn law_script_comments(code: Seq<char>, comment: Seq<char>)
    requires
        forall|i: int| 0 <= i < code.len() ==> #[trigger] code[i] != '#',
    ensures
        script_words(code.push('#') + comment) == script_words(code),
        script_words(code) == words_of(trimmed(code)),
{
    lemma_cut(code, '#', comment, CharClass::Exactly('#'));
    lemma_uncut(code, CharClass::Exactly('#'));
}

/// A line that sets a default has four words: the third is the parameter, the fourth the value.
pub proof fn law_set_default_words(name: Seq<char>, value: Seq<char>)
    requires
        spaceless(name),
        spaceless(value),
        name.len() > 0,
        value.len() > 0,
        forall|i: int| 0 <= i < name.len() ==> #[trigger] name[i] != '#',
        forall|i: int| 0 <= i < value.len() ==> #[trigger] value[i] != '#',
    ensures
        script_words("param"@ + " "@ + "set-default"@ + " "@ + name + " "@ + value) == seq![
            "param"@,
            "set-default"@,
            name,
            value,
        ],
{
    reveal_strlit("param");
    reveal_strlit("set-default");
    reveal_strlit(" ");
    let a = "param"@;
    let b = "set-default"@;
    let line = a + " "@ + b + " "@ + name + " "@ + value;
    assert(spaceless(a));
    assert(spaceless(b));
    let c = name + " "@ + value;
    let d = b + " "@ + c;
    assert(line =~= a.push(' ') + d);
    assert(d =~= b.push(' ') + c);
    assert(c =~= name.push(' ') + value);
    assert forall|i: int| 0 <= i < line.len() implies !CharClass::Exactly('#').has(
        #[trigger] line[i],
    ) by {
        let n = a.len() + 1 + b.len() + 1;
        if i >= n {
            if i < n + name.len() {
                assert(line[i] == name[i - n]);
            } else if i > n + name.len() {
                assert(line[i] == value[i - n - name.len() - 1]);
            }
        }
    }
    lemma_uncut(line, CharClass::Exactly('#'));
    assert(line.last() == value.last());
    assert(!is_space(value[value.len() - 1]));
    lemma_bare(line);
    law_words(a, ' ', d);
    law_words(b, ' ', c);
    law_words(name, ' ', value);
    law_words(value, ' ', value);
    assert(seq![a] + (seq![b] + (seq![name] + seq![value])) =~= seq![a, b, name, value]);
}

/// A line that sets a default gives it to its parameter, if that is wanted, over what was set
/// before; no other parameter changes.
pub proof fn law_defaults_are_set(
    files: Map<Seq<char>, Seq<char>>,
    px4_source: Seq<char>,
    before: Seq<Seq<char>>,
    line: Seq<char>,
    name: Seq<char>,
    value: Seq<char>,
    wanted: Set<Seq<char>>,
    visited: Set<Seq<char>>,
    other: Seq<char>,
)
    requires
        script_words(line) == seq!["param"@, "set-default"@, name, value],
        run_lines(files, px4_source, before, wanted, visited).0 is Ok,
    ensures
        ({
            let old_defaults = run_lines(files, px4_source, before, wanted, visited).0->Ok_0;
            let r = run_lines(files, px4_source, before.push(line), wanted, visited);
            &&& r.0 is Ok
            &&& r.1 == run_lines(files, px4_source, before, wanted, visited).1
            &&& wanted.contains(name) ==> (r.0->Ok_0).dom().contains(name) && (r.0->Ok_0)[name]
                == value
            &&& !wanted.contains(name) ==> r.0->Ok_0 == old_defaults
            &&& other != name ==> ((r.0->Ok_0).dom().contains(other)
                <==> old_defaults.dom().contains(other))
            &&& other != name && old_defaults.dom().contains(other) ==> (r.0->Ok_0)[other]
                == old_defaults[other]
        }),
{
    let all = before.push(line);
    assert(all.drop_last() =~= before);
    let parts = script_words(line);
    assert(parts[0] == "param"@ && parts[1] == "set-default"@ && parts[2] == name && parts[3]
        == value);
}

/// A line that sources a script below the start-up directory runs that script: what it sets
/// overrides what was set before, and the rest stays.
pub proof fn law_scripts_are_sourced(
    files: Map<Seq<char>, Seq<char>>,
    px4_source: Seq<char>,
    before: Seq<Seq<char>>,
    line: Seq<char>,
    relative: Seq<char>,
    wanted: Set<Seq<char>>,
    visited: Set<Seq<char>>,
    name: Seq<char>,
)
    requires
        files.dom().finite(),
        script_words(line) == seq!["."@, "${R}etc/init.d/"@ + relative],
        run_lines(files, px4_source, before, wanted, visited).0 is Ok,
    ensures
        ({
            let (first, seen) = run_lines(files, px4_source, before, wanted, visited);
            let path = path_below(
                path_below(px4_source, "ROMFS/px4fmu_common/init.d"@),
                relative,
            );
            let (second, after) = run_script(files, px4_source, path, wanted, visited.union(seen));
            let r = run_lines(files, px4_source, before.push(line), wanted, visited);
            &&& r.1 == after
            &&& second is Err ==> r.0 == second
            &&& second is Ok ==> r.0 is Ok
            &&& second is Ok && (second->Ok_0).dom().contains(name) ==> (r.0->Ok_0).dom().contains(
                name,
            ) && (r.0->Ok_0)[name] == (second->Ok_0)[name]
            &&& second is Ok && !(second->Ok_0).dom().contains(name) ==> ((
            r.0->Ok_0).dom().contains(name) <==> (first->Ok_0).dom().contains(name))
            &&& second is Ok && !(second->Ok_0).dom().contains(name) && (
            first->Ok_0).dom().contains(name) ==> (r.0->Ok_0)[name] == (first->Ok_0)[name]
        }),
{
    let all = before.push(line);
    assert(all.drop_last() =~= before);
    let parts = script_words(line);
    assert(parts[0] == "."@ && parts[1] == "${R}etc/init.d/"@ + relative && parts.len() == 2);
    law_after_prefix("${R}etc/init.d/"@, relative);
}

/// A script that is not visited yet is run from its text, line by line; one that is missing is
/// reported by its path.
pub proof fn law_script_is_run(
    files: Map<Seq<char>, Seq<char>>,
    px4_source: Seq<char>,
    path: Seq<char>,
    wanted: Set<Seq<char>>,
    visited: Set<Seq<char>>,
)
    requires
        files.dom().finite(),
        !visited.contains(path_key(path)),
    ensures
        files.dom().contains(path) ==> run_script(files, px4_source, path, wanted, visited)
            == run_lines(
            files,
            px4_source,
            lines_of(files[path]),
            wanted,
            visited.insert(path_key(path)),
        ),
        !files.dom().contains(path) ==> run_script(files, px4_source, path, wanted, visited).0
            == Err::<Map<Seq<char>, Seq<char>>, Seq<char>>(path),
        run_lines(files, px4_source, Seq::empty(), wanted, visited) == (
            Ok::<Map<Seq<char>, Seq<char>>, Seq<char>>(Map::empty()),
            visited,
        ),
{
}

/// The defaults of an airframe are what its script sets, with its own number as `SYS_AUTOSTART`;
/// without a script there are none.
pub proof fn law_airframe_defaults(
    files: Map<Seq<char>, Seq<char>>,
    px4_source: Seq<char>,
    path: Seq<char>,
    id: i32,
    wanted: Set<Seq<char>>,
    name: Seq<char>,
)
    ensures
        airframe_defaults(files, px4_source, None, id, wanted) == Ok::<
            Map<Seq<char>, Seq<char>>,
            Seq<char>,
        >(Map::empty()),
        ({
            let run = run_script(files, px4_source, path, wanted, Set::empty()).0;
            let r = airframe_defaults(files, px4_source, Some(path), id, wanted);
            &&& run is Err ==> r == run
            &&& run is Ok ==> r is Ok
            &&& run is Ok && wanted.contains("SYS_AUTOSTART"@) ==> (r->Ok_0).dom().contains(
                "SYS_AUTOSTART"@,
            ) && (r->Ok_0)["SYS_AUTOSTART"@] == decimal_int(id as int)
            &&& run is Ok && name != "SYS_AUTOSTART"@ ==> ((r->Ok_0).dom().contains(name) <==> (
            run->Ok_0).dom().contains(name))
            &&& run is Ok && name != "SYS_AUTOSTART"@ && (run->Ok_0).dom().contains(name) ==> (
            r->Ok_0)[name] == (run->Ok_0)[name]
        }),
{
}

/// The script of an airframe is the first whose name starts with its number and an underscore.
pub proof fn law_script_is_found(names: Seq<Seq<char>>, prefix: Seq<char>, i: int)
    ensures
        0 <= i < names.len() && prefix.is_prefix_of(names[i]) && (forall|k: int|
            0 <= k < i ==> !prefix.is_prefix_of(#[trigger] names[k])) ==> script_named(
            names,
            prefix,
        ) == Some(names[i]),
        (forall|k: int| 0 <= k < names.len() ==> !prefix.is_prefix_of(#[trigger] names[k]))
            ==> script_named(names, prefix) is None,
    decreases names.len(),
{
    if names.len() > 0 {
        let rest = names.drop_first();
        law_script_is_found(rest, prefix, i - 1);
        assert forall|k: int|
            0 <= k < rest.len() && !prefix.is_prefix_of(names[k + 1]) implies !prefix.is_prefix_of(
            #[trigger] rest[k],
        ) by {
            assert(rest[k] == names[k + 1]);
        }
    }
}

/// The name of an airframe is what stands behind `# @name` in the first line that has it.
pub proof fn law_airframe_name(all: Seq<Seq<char>>, i: int, name: Seq<char>)
    requires
        0 <= i < all.len(),
        trimmed(all[i]) == "# @name "@ + name,
        forall|k: int| 0 <= k < i ==> !"# @name "@.is_prefix_of(#[trigger] trimmed(all[k])),
    ensures
        name_in(all) == Some(name),
    decreases all.len(),
{
    law_after_prefix("# @name "@, name);
    if i > 0 {
        assert(!"# @name "@.is_prefix_of(trimmed(all[0])));
        let rest = all.drop_first();
        assert forall|k: int| 0 <= k < i - 1 implies !"# @name "@.is_prefix_of(
            #[trigger] trimmed(rest[k]),
        ) by {
            assert(rest[k] == all[k + 1]);
            assert(!"# @name "@.is_prefix_of(trimmed(all[k + 1])));
        }
        law_airframe_name(rest, i - 1, name);
    }
}

} // verus!
