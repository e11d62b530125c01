//! The plan of writes that the command line asks for.

use vstd::prelude::*;

use crate::args::Args;
use crate::audit::{law_resets_are_owed, reset_of, resets_of, row_resets};
use crate::model::{rows_view, writes_view, AuditRow, RowView, WriteRequest, WriteView};
use crate::param::{
    parse_write_value, write_encoding, write_encoding_for_type, write_value, write_value_message,
    write_value_text, ParamEncoding, WriteValueError,
};
use crate::table::{lemma_before_irreflexive, lemma_before_transitive, text_before, TextMap};
use crate::text::{from_chars, same_str, split_first, split_once, texts, to_chars, CharClass};

verus! {

/// Why no writes can be planned.
#[derive(Clone, Copy, Debug, PartialEq, Eq, Structural)]
pub enum PlanError {
    /// The setting at the index is not of the form `NAME=VALUE`.
    Malformed {
        /// The index of the setting.
        index: usize,
    },
    /// The device has no parameter of the name in the setting at the index.
    NoSuchParameter {
        /// The index of the setting.
        index: usize,
    },
    /// The value in the setting at the index cannot be written.
    BadValue {
        /// The index of the setting.
        index: usize,
        /// Why it cannot.
        error: WriteValueError,
    },
    /// There is nothing to write.
    NothingToWrite,
}

/// The first row of the given name.
pub open spec fn row_named(rows: Seq<RowView>, name: Seq<char>) -> Option<RowView>
    decreases rows.len(),
{
    if rows.len() == 0 {
        None
    } else if rows[0].name == name {
        Some(rows[0])
    } else {
        row_named(rows.drop_first(), name)
    }
}

/// The write that a setting asks for.
pub open spec fn setting_of(
    setting: Seq<char>,
    index: usize,
    rows: Seq<RowView>,
    encoding: ParamEncoding,
) -> Result<WriteView, PlanError> {
    match split_first(setting, CharClass::Exactly('=')) {
        None => Err(PlanError::Malformed { index }),
        Some((name, value)) => match row_named(rows, name) {
            None => Err(PlanError::NoSuchParameter { index }),
            Some(row) => match write_value(value) {
                Err(error) => Err(PlanError::BadValue { index, error }),
                Ok(value) => Ok(
                    WriteView {
                        name,
                        value,
                        mav_type: row.mav_type,
                        encoding: write_encoding(row.mav_type, encoding),
                        source: "--set"@,
                    },
                ),
            },
        },
    }
}

/// Writes by the names of their parameters; later ones replace earlier ones.
pub open spec fn by_name(writes: Seq<WriteView>) -> Map<Seq<char>, WriteView>
    decreases writes.len(),
{
    if writes.len() == 0 {
        Map::empty()
    } else {
        by_name(writes.drop_last()).insert(writes.last().name, writes.last())
    }
}

/// The writes that settings ask for over the given ones, or the first fault among them.
pub open spec fn with_settings(
    start: Map<Seq<char>, WriteView>,
    settings: Seq<Seq<char>>,
    rows: Seq<RowView>,
    encoding: ParamEncoding,
) -> Result<Map<Seq<char>, WriteView>, PlanError>
    decreases settings.len(),
{
    if settings.len() == 0 {
        Ok(start)
    } else {
        match with_settings(start, settings.drop_last(), rows, encoding) {
            Err(e) => Err(e),
            Ok(m) => match setting_of(
                settings.last(),
                (settings.len() - 1) as usize,
                rows,
                encoding,
            ) {
                Err(e) => Err(e),
                Ok(w) => Ok(m.insert(w.name, w)),
            },
        }
    }
}

/// The writes that are asked for: resets of the rows that differ, and the settings over them.
pub open spec fn planned_writes(
    write_diffs: bool,
    settings: Seq<Seq<char>>,
    rows: Seq<RowView>,
    encoding: ParamEncoding,
) -> Result<Map<Seq<char>, WriteView>, PlanError> {
    let start = if write_diffs {
        by_name(resets_of(rows, encoding, "PX4 baseline"@))
    } else {
        Map::empty()
    };
    match with_settings(start, settings, rows, encoding) {
        Err(e) => Err(e),
        Ok(m) => if m.dom() =~= Set::<Seq<char>>::empty() {
            Err(PlanError::NothingToWrite)
        } else {
            Ok(m)
        },
    }
}

/// Whether `writes` are those of the table, in the order of their names.
pub open spec fn in_name_order(
    writes: Seq<WriteView>,
    table: Map<Seq<char>, WriteView>,
) -> bool {
    &&& forall|i: int, j: int|
        0 <= i < j < writes.len() ==> text_before(
            (#[trigger] writes[i]).name,
            (#[trigger] writes[j]).name,
        )
    &&& forall|i: int|
        0 <= i < writes.len() ==> table.dom().contains((#[trigger] writes[i]).name)
            && table[writes[i].name] == writes[i]
    &&& forall|k: Seq<char>| #[trigger]
        table.dom().contains(k) ==> exists|i: int|
            0 <= i < writes.len() && (#[trigger] writes[i]).name == k
}

fn find_row<'a>(rows: &'a [AuditRow], name: &str) -> (r: Option<&'a AuditRow>)
    ensures
        match r {
            Some(row) => row_named(rows_view(rows@), name@) == Some(row@),
            None => row_named(rows_view(rows@), name@) is None,
        },
{
    let ghost all = rows_view(rows@);
    assert(all.skip(0) =~= all);
    for i in 0..rows.len()
        invariant
            all == rows_view(rows@),
            row_named(all, name@) == row_named(all.skip(i as int), name@),
    {
        assert(all.skip(i as int)[0] == rows@[i as int]@);
        if same_str(rows[i].name.as_str(), name) {
            return Some(&rows[i]);
        }
        assert(all.skip(i as int).drop_first() =~= all.skip(i + 1));
    }
    None
}

/// The view of a planned write.
pub open spec fn result_view(r: Result<WriteRequest, PlanError>) -> Result<WriteView, PlanError> {
    match r {
        Ok(w) => Ok(w@),
        Err(e) => Err(e),
    }
}

/// The write that a setting `NAME=VALUE` asks for.
pub fn parse_setting(
    setting: &str,
    index: usize,
    rows: &[AuditRow],
    encoding: ParamEncoding,
) -> (r: Result<WriteRequest, PlanError>)
    ensures
        result_view(r) == setting_of(setting@, index, rows_view(rows@), encoding),
{
    let c = to_chars(setting);
    match split_once(c.as_slice(), CharClass::Exactly('=')) {
        None => Err(PlanError::Malformed { index }),
        Some((name, value)) => {
            let name = from_chars(name);
            match find_row(rows, name.as_str()) {
                None => Err(PlanError::NoSuchParameter { index }),
                Some(row) => {
                    let value = from_chars(value);
                    match parse_write_value(value.as_str()) {
                        Err(error) => Err(PlanError::BadValue { index, error }),
                        Ok(value) => Ok(
                            WriteRequest {
                                name,
                                value,
                                mav_type: row.mav_type,
                                encoding: write_encoding_for_type(row.mav_type, encoding),
                                source: String::from_str("--set"),
                            },
                        ),
                    }
                },
            }
        },
    }
}

proof fn lemma_by_name(writes: Seq<WriteView>, k: Seq<char>)
    requires
        by_name(writes).dom().contains(k),
    ensures
        by_name(writes)[k].name == k,
        exists|i: int| 0 <= i < writes.len() && #[trigger] writes[i] == by_name(writes)[k],
    decreases writes.len(),
{
    if writes.len() > 0 {
        if writes.last().name != k {
            lemma_by_name(writes.drop_last(), k);
            let i = choose|i: int|
                0 <= i < writes.drop_last().len() && #[trigger] writes.drop_last()[i] == by_name(
                    writes.drop_last(),
                )[k];
            assert(writes[i] == by_name(writes)[k]);
        } else {
            assert(writes[writes.len() - 1] == by_name(writes)[k]);
        }
    }
}

fn into_writes(table: TextMap<WriteRequest>) -> (r: Vec<WriteRequest>)
    requires
        forall|k: Seq<char>| #[trigger] table@.dom().contains(k) ==> table@[k].name == k,
    ensures
        in_name_order(writes_view(r@), table@),
{
    let n: usize = table.len();
    let ghost keys = table.keys();
    let mut out: Vec<WriteRequest> = Vec::new();
    for i in 0..n
        invariant
            n == keys.len(),
            keys == table.keys(),
            table.ordered(),
            out@.len() == i,
            forall|j: int| 0 <= j < i ==> (#[trigger] out@[j])@ == table@[keys[j]],
    {
        let ghost before = out@;
        out.push(table.value_at(i).clone());
        assert forall|j: int| 0 <= j < i + 1 implies (#[trigger] out@[j])@ == table@[keys[j]] by {
            if j < i {
                assert(out@[j] == before[j]);
            }
        }
    }
    proof {
        let writes = writes_view(out@);
        assert forall|i: int| 0 <= i < writes.len() implies table@.dom().contains(
            (#[trigger] writes[i]).name,
        ) && table@[writes[i].name] == writes[i] && writes[i].name == keys[i] by {
            assert(out@[i]@ == table@[keys[i]]);
            assert(keys.contains(keys[i]));
            assert(table@.dom().contains(keys[i]));
        }
        assert forall|i: int, j: int| 0 <= i < j < writes.len() implies text_before(
            (#[trigger] writes[i]).name,
            (#[trigger] writes[j]).name,
        ) by {
            assert(text_before(keys[i], keys[j]));
        }
        assert forall|k: Seq<char>| #[trigger] table@.dom().contains(k) implies exists|i: int|
            0 <= i < writes.len() && (#[trigger] writes[i]).name == k by {
            assert(keys.contains(k));
            let i = choose|i: int| 0 <= i < keys.len() && keys[i] == k;
            assert(writes[i].name == k);
        }
    }
    out
}

/// Plans resets of the rows that differ, if they are asked for, and the settings over them, in the
/// order of the names.
pub fn plan_writes(
    write_diffs: bool,
    settings: &[String],
    rows: &[AuditRow],
    write_encoding: ParamEncoding,
) -> (r: Result<Vec<WriteRequest>, PlanError>)
    ensures
        match planned_writes(write_diffs, texts(settings@), rows_view(rows@), write_encoding) {
            Ok(table) => r is Ok && in_name_order(writes_view(r->Ok_0@), table),
            Err(e) => r == Err::<Vec<WriteRequest>, PlanError>(e),
        },
{
    let ghost all = rows_view(rows@);
    let mut table: TextMap<WriteRequest> = TextMap::new();
    if write_diffs {
        let resets = row_resets(rows, write_encoding, "PX4 baseline");
        let ghost list = writes_view(resets@);
        assert(list == resets_of(all, write_encoding, "PX4 baseline"@));
        assert(table@ == by_name(list.take(0)));
        for i in 0..resets.len()
            invariant
                list == writes_view(resets@),
                table@ == by_name(list.take(i as int)),
        {
            proof {
                assert(list.take(i + 1).drop_last() =~= list.take(i as int));
                assert(list.take(i + 1).last() == resets@[i as int]@);
            }
            let w = resets[i].clone();
            table.insert(w.name.clone(), w);
        }
        proof {
            assert(list.take(list.len() as int) =~= list);
            assert forall|k: Seq<char>| #[trigger] table@.dom().contains(k) implies table@[k].name
                == k by {
                lemma_by_name(list, k);
            }
        }
    }
    let ghost start = table@;
    let ghost list = texts(settings@);
    for i in 0..settings.len()
        invariant
            all == rows_view(rows@),
            list == texts(settings@),
            with_settings(start, list.take(i as int), all, write_encoding) == Ok::<
                Map<Seq<char>, WriteView>,
                PlanError,
            >(table@),
            forall|k: Seq<char>| #[trigger] table@.dom().contains(k) ==> table@[k].name == k,
            start == (if write_diffs {
                by_name(resets_of(all, write_encoding, "PX4 baseline"@))
            } else {
                Map::empty()
            }),
    {
        proof {
            assert(list.take(i + 1).drop_last() =~= list.take(i as int));
            assert(list.take(i + 1).last() == settings@[i as int]@);
        }
        match parse_setting(settings[i].as_str(), i, rows, write_encoding) {
            Ok(w) => {
                table.insert(w.name.clone(), w);
            },
            Err(e) => {
                proof {
                    lemma_settings_stop(start, list, all, write_encoding, i + 1);
                }
                return Err(e);
            },
        }
    }
    assert(list.take(list.len() as int) =~= list);
    if table.is_empty() {
        return Err(PlanError::NothingToWrite);
    }
    Ok(into_writes(table))
}

/// Plans the writes that the options ask for, in the order of the names.
pub fn build_write_plan(args: &Args, rows: &[AuditRow], write_encoding: ParamEncoding) -> (r:
    Result<Vec<WriteRequest>, PlanError>)
    ensures
        match planned_writes(
            args.write_diffs,
            Seq::empty(),
            rows_view(rows@),
            write_encoding,
        ) {
            Ok(table) => r is Ok && in_name_order(writes_view(r->Ok_0@), table),
            Err(e) => r == Err::<Vec<WriteRequest>, PlanError>(e),
        },
{
    let none: Vec<String> = Vec::new();
    assert(texts(none@) =~= Seq::empty());
    plan_writes(args.write_diffs, none.as_slice(), rows, write_encoding)
}

/// The setting at an index, if there is one.
pub open spec fn setting_at(settings: Seq<Seq<char>>, index: usize) -> Seq<char> {
    if index < settings.len() {
        settings[index as int]
    } else {
        ""@
    }
}

/// Why no writes can be planned, in words.
pub open spec fn plan_error_text(e: PlanError, settings: Seq<Seq<char>>) -> Seq<char> {
    match e {
        PlanError::Malformed { index } => "expected PARAM=VALUE, got "@ + setting_at(
            settings,
            index,
        ),
        PlanError::NoSuchParameter { index } => "the device has no such parameter: "@ + setting_at(
            settings,
            index,
        ),
        PlanError::BadValue { index, error } => match split_first(
            setting_at(settings, index),
            CharClass::Exactly('='),
        ) {
            Some((name, value)) => name + ": "@ + write_value_text(error, value),
            None => setting_at(settings, index),
        },
        PlanError::NothingToWrite =>
        "no writable parameters selected; known diffs may have nonnumeric baselines"@,
    }
}

fn copy_setting(settings: &[String], index: usize) -> (r: String)
    ensures
        r@ == setting_at(texts(settings@), index),
{
    if index < settings.len() {
        settings[index].clone()
    } else {
        String::from_str("")
    }
}

/// Why no writes can be planned, in words; `settings` are those of the plan.
pub fn plan_error_message(e: PlanError, settings: &[String]) -> (r: String)
    ensures
        r@ == plan_error_text(e, texts(settings@)),
{
    match e {
        PlanError::Malformed { index } => {
            let mut out = String::from_str("expected PARAM=VALUE, got ");
            let setting = copy_setting(settings, index);
            out.append(setting.as_str());
            out
        },
        PlanError::NoSuchParameter { index } => {
            let mut out = String::from_str("the device has no such parameter: ");
            let setting = copy_setting(settings, index);
            out.append(setting.as_str());
            out
        },
        PlanError::BadValue { index, error } => {
            let setting = copy_setting(settings, index);
            let c = to_chars(setting.as_str());
            match split_once(c.as_slice(), CharClass::Exactly('=')) {
                Some((name, value)) => {
                    let mut out = from_chars(name);
                    out.append(": ");
                    let value = from_chars(value);
                    let why = write_value_message(error, value.as_str());
                    out.append(why.as_str());
                    out
                },
                None => setting,
            }
        },
        PlanError::NothingToWrite => String::from_str(
            "no writable parameters selected; known diffs may have nonnumeric baselines",
        ),
    }
}

proof fn lemma_settings_stop(
    start: Map<Seq<char>, WriteView>,
    settings: Seq<Seq<char>>,
    rows: Seq<RowView>,
    encoding: ParamEncoding,
    n: int,
)
    requires
        0 <= n <= settings.len(),
        with_settings(start, settings.take(n), rows, encoding) is Err,
    ensures
        with_settings(start, settings, rows, encoding) == with_settings(
            start,
            settings.take(n),
            rows,
            encoding,
        ),
    decreases settings.len() - n,
{
    if n < settings.len() {
        assert(settings.take(n + 1).drop_last() =~= settings.take(n));
        lemma_settings_stop(start, settings, rows, encoding, n + 1);
    } else {
        assert(settings.take(n) =~= settings);
    }
}

/// A plan without settings writes resets alone: a fallback baseline is never written, and every
/// write carries the number of a baseline that its row differs from.
pub proof fn law_plan_writes_resets(
    rows: Seq<RowView>,
    encoding: ParamEncoding,
    name: Seq<char>,
)
    requires
        planned_writes(true, Seq::empty(), rows, encoding) is Ok,
        (planned_writes(true, Seq::empty(), rows, encoding)->Ok_0).dom().contains(name),
    ensures
        exists|i: int|
            0 <= i < rows.len() && #[trigger] reset_of(rows[i], encoding, "PX4 baseline"@) == Some(
                (planned_writes(true, Seq::empty(), rows, encoding)->Ok_0)[name],
            ) && rows[i].name == name && rows[i].status == "diff"@ && !rows[i].baseline_fallback,
{
    let list = resets_of(rows, encoding, "PX4 baseline"@);
    let w = by_name(list)[name];
    lemma_by_name(list, name);
    let k = choose|k: int| 0 <= k < list.len() && #[trigger] list[k] == w;
    law_resets_are_owed(rows, encoding, "PX4 baseline"@, k);
    let i = choose|i: int|
        0 <= i < rows.len() && #[trigger] reset_of(rows[i], encoding, "PX4 baseline"@) == Some(
            list[k],
        );
    assert(reset_of(rows[i], encoding, "PX4 baseline"@) == Some(w));
}

/// Nothing is planned unless a write option asks for it.
pub proof fn law_no_writes_unasked(rows: Seq<RowView>, encoding: ParamEncoding)
    ensures
        planned_writes(false, Seq::empty(), rows, encoding) == Err::<
            Map<Seq<char>, WriteView>,
            PlanError,
        >(PlanError::NothingToWrite),
{
}

/// Whether the names of writes increase.
pub open spec fn names_increase(writes: Seq<WriteView>) -> bool {
    forall|i: int, j: int|
        0 <= i < j < writes.len() ==> text_before(
            (#[trigger] writes[i]).name,
            (#[trigger] writes[j]).name,
        )
}

proof fn lemma_by_name_has(writes: Seq<WriteView>, i: int)
    requires
        0 <= i < writes.len(),
        names_increase(writes),
    ensures
        by_name(writes).dom().contains(writes[i].name),
        by_name(writes)[writes[i].name] == writes[i],
    decreases writes.len(),
{
    if i < writes.len() - 1 {
        let rest = writes.drop_last();
        assert(names_increase(rest));
        lemma_by_name_has(rest, i);
        assert(text_before(writes[i].name, writes[writes.len() - 1].name));
        lemma_before_irreflexive(writes[i].name);
    }
}

proof fn lemma_own_order(writes: Seq<WriteView>)
    requires
        names_increase(writes),
    ensures
        in_name_order(writes, by_name(writes)),
{
    let table = by_name(writes);
    assert forall|i: int| 0 <= i < writes.len() implies table.dom().contains(
        (#[trigger] writes[i]).name,
    ) && table[writes[i].name] == writes[i] by {
        lemma_by_name_has(writes, i);
    }
    assert forall|k: Seq<char>| #[trigger] table.dom().contains(k) implies exists|i: int|
        0 <= i < writes.len() && (#[trigger] writes[i]).name == k by {
        lemma_by_name(writes, k);
        let i = choose|i: int| 0 <= i < writes.len() && #[trigger] writes[i] == table[k];
        assert(writes[i].name == k);
    }
}

/// In name order, the last write has the last name of the table.
proof fn lemma_last_name(a: Seq<WriteView>, table: Map<Seq<char>, WriteView>, k: Seq<char>)
    requires
        in_name_order(a, table),
        table.dom().contains(k),
    ensures
        a.len() > 0,
        a.last().name == k || text_before(k, a.last().name),
{
    let i = choose|i: int| 0 <= i < a.len() && (#[trigger] a[i]).name == k;
    if i < a.len() - 1 {
        assert(text_before(a[i].name, a[a.len() - 1].name));
    }
}

proof fn lemma_shorter_order(a: Seq<WriteView>, table: Map<Seq<char>, WriteView>)
    requires
        in_name_order(a, table),
        a.len() > 0,
    ensures
        in_name_order(a.drop_last(), table.remove(a.last().name)),
{
    let rest = a.drop_last();
    let less = table.remove(a.last().name);
    assert forall|i: int| 0 <= i < rest.len() implies less.dom().contains(
        (#[trigger] rest[i]).name,
    ) && less[rest[i].name] == rest[i] by {
        assert(rest[i] == a[i]);
        assert(text_before(a[i].name, a[a.len() - 1].name));
        lemma_before_irreflexive(a[i].name);
    }
    assert forall|k: Seq<char>| #[trigger] less.dom().contains(k) implies exists|i: int|
        0 <= i < rest.len() && (#[trigger] rest[i]).name == k by {
        assert(table.dom().contains(k));
        let i = choose|i: int| 0 <= i < a.len() && (#[trigger] a[i]).name == k;
        assert(rest[i].name == k);
    }
}

/// The name order of a table is one alone.
proof fn lemma_order_is_unique(
    a: Seq<WriteView>,
    b: Seq<WriteView>,
    table: Map<Seq<char>, WriteView>,
)
    requires
        in_name_order(a, table),
        in_name_order(b, table),
    ensures
        a == b,
    decreases a.len(),
{
    if a.len() == 0 {
        if b.len() > 0 {
            assert(table.dom().contains(b[0].name));
            lemma_last_name(a, table, b[0].name);
        }
        assert(a =~= b);
    } else {
        assert(table.dom().contains(a[a.len() - 1].name));
        lemma_last_name(b, table, a.last().name);
        assert(table.dom().contains(b[b.len() - 1].name));
        lemma_last_name(a, table, b.last().name);
        if a.last().name != b.last().name {
            lemma_before_transitive(a.last().name, b.last().name, a.last().name);
            lemma_before_irreflexive(a.last().name);
        }
        assert(table[a[a.len() - 1].name] == a.last());
        assert(table[b[b.len() - 1].name] == b.last());
        lemma_shorter_order(a, table);
        lemma_shorter_order(b, table);
        lemma_order_is_unique(a.drop_last(), b.drop_last(), table.remove(a.last().name));
        assert(a =~= a.drop_last().push(a.last()));
        assert(b =~= b.drop_last().push(b.last()));
    }
}

proof fn lemma_resets_increase(rows: Seq<RowView>, encoding: ParamEncoding, origin: Seq<char>)
    requires
        forall|i: int, j: int|
            0 <= i < j < rows.len() ==> text_before(
                (#[trigger] rows[i]).name,
                (#[trigger] rows[j]).name,
            ),
    ensures
        names_increase(resets_of(rows, encoding, origin)),
    decreases rows.len(),
{
    if rows.len() > 0 {
        let rest = rows.drop_last();
        let before = resets_of(rest, encoding, origin);
        let all = resets_of(rows, encoding, origin);
        lemma_resets_increase(rest, encoding, origin);
        assert forall|i: int, j: int| 0 <= i < j < all.len() implies text_before(
            (#[trigger] all[i]).name,
            (#[trigger] all[j]).name,
        ) by {
            assert(all[i] == before[i]);
            if j < before.len() {
                assert(all[j] == before[j]);
            } else {
                law_resets_are_owed(rest, encoding, origin, i);
                let k = choose|k: int|
                    0 <= k < rest.len() && #[trigger] reset_of(rest[k], encoding, origin) == Some(
                        before[i],
                    );
                assert(rest[k] == rows[k]);
                assert(text_before(rows[k].name, rows[rows.len() - 1].name));
            }
        }
    }
}

/// The plan for the rows of an audit is their resets, in the order of the rows.
pub proof fn law_plan_is_the_resets(
    rows: Seq<RowView>,
    encoding: ParamEncoding,
    writes: Seq<WriteView>,
)
    requires
        forall|i: int, j: int|
            0 <= i < j < rows.len() ==> text_before(
                (#[trigger] rows[i]).name,
                (#[trigger] rows[j]).name,
            ),
        planned_writes(true, Seq::empty(), rows, encoding) is Ok,
        in_name_order(writes, planned_writes(true, Seq::empty(), rows, encoding)->Ok_0),
    ensures
        writes == resets_of(rows, encoding, "PX4 baseline"@),
{
    let resets = resets_of(rows, encoding, "PX4 baseline"@);
    lemma_resets_increase(rows, encoding, "PX4 baseline"@);
    lemma_own_order(resets);
    lemma_order_is_unique(writes, resets, by_name(resets));
}

/// A setting decides what is written to its parameter, whatever its baseline: the last setting of
/// a parameter counts.
pub proof fn law_last_setting_counts(
    start: Map<Seq<char>, WriteView>,
    settings: Seq<Seq<char>>,
    rows: Seq<RowView>,
    encoding: ParamEncoding,
    i: int,
    write: WriteView,
)
    requires
        0 <= i < settings.len() <= usize::MAX,
        with_settings(start, settings, rows, encoding) is Ok,
        setting_of(settings[i], i as usize, rows, encoding) == Ok::<WriteView, PlanError>(write),
        forall|j: int|
            i < j < settings.len() ==> (setting_of(
                #[trigger] settings[j],
                j as usize,
                rows,
                encoding,
            )->Ok_0).name != write.name,
    ensures
        (with_settings(start, settings, rows, encoding)->Ok_0).dom().contains(write.name),
        (with_settings(start, settings, rows, encoding)->Ok_0)[write.name] == write,
    decreases settings.len(),
{
    let rest = settings.drop_last();
    if i < settings.len() - 1 {
        assert(settings[settings.len() - 1] == settings.last());
        assert forall|j: int| i < j < rest.len() implies (setting_of(
            #[trigger] rest[j],
            j as usize,
            rows,
            encoding,
        )->Ok_0).name != write.name by {
            assert(rest[j] == settings[j]);
        }
        law_last_setting_counts(start, rest, rows, encoding, i, write);
    }
}

} // verus!
