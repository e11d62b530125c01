//! What a write is: what is asked for, what is sent, and which answer confirms it.

use vstd::prelude::*;

use crate::audit::{reset_of, resets_of, row_reset};
use crate::audit_laws::{law_reset_is_exact, small_integer};
use crate::collect::ReceivedParam;
use crate::confirm::{
    answer_is_yes, confirm_writes, param_confirmation, planned_write_line, send_param_set,
    type_text, Confirmation, ParamSet,
};
use crate::ieee::Real32;
use crate::model::{rows_view, writes_view, AuditRow, RowView, WriteRequest, WriteView};
use crate::param::{
    encode_param_set_value, equivalent, shown, write_value, IntegerError, MavParamType,
    ParamEncoding, ParamValue, WriteValueError,
};
use crate::plan::{
    by_name, in_name_order, law_last_setting_counts, law_plan_writes_resets, plan_writes,
    planned_writes, row_named, setting_of, with_settings, PlanError,
};
use crate::table::text_before;
use crate::text::{texts, trimmed, CharClass};
use crate::text_laws::{lemma_bare, lemma_cut, lemma_uncut};
use crate::vehicle::VehicleIdentity;

verus! {

/// Writes go ahead unasked only where that was confirmed beforehand; without anyone to ask they are
/// refused.
pub proof fn law_confirmation(yes: bool, terminal: bool, r: Confirmation)
    requires
        call_ensures(confirm_writes, (yes, terminal), r),
    ensures
        r == Confirmation::Given <==> yes,
        r == Confirmation::Ask <==> !yes && terminal,
        r == Confirmation::Refused <==> !yes && !terminal,
{
}

/// Only the word `yes` is a yes, with white space around it or not.
pub proof fn law_answer(answer: &str, r: bool)
    requires
        call_ensures(answer_is_yes, (answer,), r),
    ensures
        answer@ == "yes"@ ==> r,
        r ==> trimmed(answer@) == "yes"@,
        answer@.len() == 0 ==> !r,
        answer@ == "y"@ ==> !r,
{
    reveal_strlit("yes");
    reveal_strlit("y");
    assert("yes"@.len() == 3 && "y"@.len() == 1);
    assert("yes"@[0] == 'y' && "yes"@[2] == 's');
    assert("y"@[0] == 'y');
    lemma_bare("yes"@);
    lemma_bare("y"@);
    if answer@.len() == 0 {
        lemma_bare(answer@);
    }
}

/// A reset of a row writes the number of the row's own baseline to the row's own parameter in the
/// row's own type; it exists exactly where the row differs from a baseline that is no fallback and
/// that is a single number.
pub proof fn law_row_reset(
    row: &AuditRow,
    encoding: ParamEncoding,
    origin: &str,
    r: Option<WriteRequest>,
)
    requires
        call_ensures(row_reset, (row, encoding, origin), r),
    ensures
        r is Some <==> row.status@ == "diff"@ && !row.baseline_fallback && write_value(
            row.baseline@,
        ) is Ok,
        r matches Some(w) ==> w.name@ == row.name@ && w.mav_type == row.mav_type && write_value(
            row.baseline@,
        ) == Ok::<Real32, WriteValueError>(w.value) && w.encoding == (if small_integer(
            row.mav_type,
        ) {
            encoding
        } else {
            ParamEncoding::CCast
        }) && w.source@ == origin@ + " ("@ + row.source@ + ")"@,
{
}

/// What is sent for the reset of a row that is no integer is the number of the row's baseline.
pub proof fn law_real_reset_sends_the_baseline(
    row: &AuditRow,
    encoding: ParamEncoding,
    origin: &str,
    w: WriteRequest,
    identity: &VehicleIdentity,
    sent: Result<ParamSet, IntegerError>,
)
    requires
        !small_integer(row.mav_type),
        call_ensures(row_reset, (row, encoding, origin), Some(w)),
        call_ensures(send_param_set, (identity, &w), sent),
    ensures
        sent is Ok,
        write_value(row.baseline@) == Ok::<Real32, WriteValueError>((sent->Ok_0).param_value),
        (sent->Ok_0).param_type == row.mav_type,
        (sent->Ok_0).param_id@ == row.name@,
{
}

/// What is sent goes to the vehicle, under the name and in the type of the write, and carries the
/// number as that type is encoded; where the number does not fit the type, nothing is sent.
pub proof fn law_param_set(
    identity: &VehicleIdentity,
    write: &WriteRequest,
    r: Result<ParamSet, IntegerError>,
    value: Result<Real32, IntegerError>,
)
    requires
        call_ensures(send_param_set, (identity, write), r),
        call_ensures(encode_param_set_value, (write.value, write.mav_type, write.encoding), value),
    ensures
        r is Ok <==> value is Ok,
        r matches Ok(set) ==> set.target_system == identity.system_id && set.target_component
            == identity.component_id && set.param_id@ == write.name@ && set.param_type
            == write.mav_type && value == Ok::<Real32, IntegerError>(set.param_value),
        r matches Err(e) ==> value == Err::<Real32, IntegerError>(e),
        !small_integer(write.mav_type) ==> r is Ok && (r->Ok_0).param_value == write.value,
        write.encoding == ParamEncoding::CCast && r is Ok ==> (r->Ok_0).param_value == write.value,
{
}

/// An answer confirms a write only under the name that was written, and only where its value,
/// shown in the type and the encoding of the write, agrees with the number that was written; the
/// confirmed value is the one that was received.
pub proof fn law_confirmations(
    write: &WriteRequest,
    param: &ReceivedParam,
    r: Option<ParamValue>,
)
    requires
        call_ensures(param_confirmation, (write, param), r),
    ensures
        param.name@ != write.name@ ==> r is None,
        r matches Some(p) ==> p.value == param.value && p.mav_type == param.mav_type && p.encoding
            == write.encoding,
        r is Some <==> param.name@ == write.name@ && equivalent(
            shown(
                ParamValue {
                    value: param.value,
                    mav_type: write.mav_type,
                    encoding: write.encoding,
                },
            ),
            shown(
                ParamValue {
                    value: write.value,
                    mav_type: write.mav_type,
                    encoding: ParamEncoding::CCast,
                },
            ),
        ),
{
}

/// A setting is a name and a value with an equals sign between them: it writes the number to the
/// parameter of that name, in the type of that parameter's row.
pub proof fn law_setting(
    name: Seq<char>,
    value: Seq<char>,
    index: usize,
    rows: Seq<RowView>,
    encoding: ParamEncoding,
    i: int,
)
    requires
        forall|k: int| 0 <= k < name.len() ==> #[trigger] name[k] != '=',
    ensures
        ({
            let r = setting_of(name + "="@ + value, index, rows, encoding);
            let found = 0 <= i < rows.len() && rows[i].name == name && forall|k: int|
                0 <= k < i ==> (#[trigger] rows[k]).name != name;
            let unknown = forall|k: int| 0 <= k < rows.len() ==> (#[trigger] rows[k]).name != name;
            &&& unknown ==> r == Err::<WriteView, PlanError>(PlanError::NoSuchParameter { index })
            &&& found && write_value(value) is Ok ==> r is Ok && (r->Ok_0).name == name && Ok::<
                Real32,
                WriteValueError,
            >((r->Ok_0).value) == write_value(value) && (r->Ok_0).mav_type == rows[i].mav_type && (
            r->Ok_0).encoding == (if small_integer(rows[i].mav_type) {
                encoding
            } else {
                ParamEncoding::CCast
            }) && (r->Ok_0).source == "--set"@
            &&& found ==> (write_value(value) matches Err(error) ==> r == Err::<
                WriteView,
                PlanError,
            >(PlanError::BadValue { index, error }))
            &&& setting_of(name, index, rows, encoding) == Err::<WriteView, PlanError>(
                PlanError::Malformed { index },
            )
        }),
{
    reveal_strlit("=");
    assert(name + "="@ + value =~= name.push('=') + value);
    lemma_cut(name, '=', value, CharClass::Exactly('='));
    lemma_uncut(name, CharClass::Exactly('='));
    law_row_named(rows, name, i);
}

/// The row of a name is the first that has it.
pub proof fn law_row_named(rows: Seq<RowView>, name: Seq<char>, i: int)
    ensures
        0 <= i < rows.len() && rows[i].name == name && (forall|k: int|
            0 <= k < i ==> (#[trigger] rows[k]).name != name) ==> row_named(rows, name) == Some(
            rows[i],
        ),
        (forall|k: int| 0 <= k < rows.len() ==> (#[trigger] rows[k]).name != name) ==> row_named(
            rows,
            name,
        ) is None,
    decreases rows.len(),
{
    if rows.len() > 0 {
        let rest = rows.drop_first();
        law_row_named(rest, name, i - 1);
        if forall|k: int| 0 <= k < rows.len() ==> (#[trigger] rows[k]).name != name {
            assert(rows[0].name != name);
            assert forall|k: int| 0 <= k < rest.len() implies (#[trigger] rest[k]).name != name by {
                assert(rows[k + 1].name != name);
            }
        }
        if 0 < i < rows.len() && (forall|k: int| 0 <= k < i ==> (#[trigger] rows[k]).name != name) {
            assert(rows[0].name != name);
            assert forall|k: int| 0 <= k < i - 1 implies (#[trigger] rest[k]).name != name by {
                assert(rows[k + 1].name != name);
            }
        }
    }
}

/// Without settings, a plan writes the diffs if that is asked for, and nothing otherwise: each
/// write is the exact reset of a row of its name, and they come in the order of the names.
pub proof fn law_plan_of_diffs(
    write_diffs: bool,
    settings: &[String],
    rows: &[AuditRow],
    encoding: ParamEncoding,
    r: Result<Vec<WriteRequest>, PlanError>,
    k: int,
) -> (i: int)
    requires
        call_ensures(plan_writes, (write_diffs, settings, rows, encoding), r),
        settings@.len() == 0,
    ensures
        !write_diffs ==> r == Err::<Vec<WriteRequest>, PlanError>(PlanError::NothingToWrite),
        r matches Ok(writes) ==> writes@.len() > 0,
        r matches Ok(writes) ==> forall|a: int, b: int|
            0 <= a < b < writes@.len() ==> text_before(
                (#[trigger] writes@[a]).name@,
                (#[trigger] writes@[b]).name@,
            ),
        r matches Ok(writes) ==> 0 <= k < writes@.len() ==> {
            let w = writes@[k];
            &&& 0 <= i < rows@.len()
            &&& rows@[i].status@ == "diff"@
            &&& !rows@[i].baseline_fallback
            &&& w.name@ == rows@[i].name@
            &&& w.mav_type == rows@[i].mav_type
            &&& write_value(rows@[i].baseline@) == Ok::<Real32, WriteValueError>(w.value)
            &&& w.encoding == if small_integer(rows@[i].mav_type) {
                encoding
            } else {
                ParamEncoding::CCast
            }
        },
{
    assert(texts(settings@) =~= Seq::empty());
    let all = rows_view(rows@);
    let plan = planned_writes(write_diffs, Seq::empty(), all, encoding);
    if let Ok(writes) = r {
        let views = writes_view(writes@);
        assert(plan is Ok);
        let table = plan->Ok_0;
        assert(in_name_order(views, table));
        assert forall|a: int, b: int| 0 <= a < b < writes@.len() implies text_before(
            (#[trigger] writes@[a]).name@,
            (#[trigger] writes@[b]).name@,
        ) by {
            assert(text_before(views[a].name, views[b].name));
        }
        if writes@.len() == 0 {
            assert(table.dom() =~= Set::<Seq<char>>::empty()) by {
                assert forall|n: Seq<char>| !table.dom().contains(n) by {
                    if table.dom().contains(n) {
                        let i = choose|i: int|
                            0 <= i < views.len() && (#[trigger] views[i]).name == n;
                    }
                }
            }
            assert(false);
        }
        if 0 <= k < writes@.len() {
            let name = views[k].name;
            assert(views[k] == writes@[k]@);
            assert(write_diffs);
            law_plan_writes_resets(all, encoding, name);
            let i = choose|i: int|
                0 <= i < all.len() && #[trigger] reset_of(
                    all[i],
                    encoding,
                    "PX4 baseline"@,
                ) == Some(table[name]) && all[i].name == name;
            law_reset_is_exact(all[i], encoding, "PX4 baseline"@);
            assert(all[i] == rows@[i]@);
            i
        } else {
            0
        }
    } else {
        0
    }
}

/// A plan with settings writes, under the name of the last setting of that name, what that setting
/// says, over any reset.
pub proof fn law_settings_override(
    write_diffs: bool,
    settings: Seq<Seq<char>>,
    rows: Seq<RowView>,
    encoding: ParamEncoding,
    i: int,
    write: WriteView,
)
    requires
        0 <= i < settings.len() <= usize::MAX,
        planned_writes(write_diffs, settings, rows, encoding) is Ok,
        setting_of(settings[i], i as usize, rows, encoding) == Ok::<WriteView, PlanError>(write),
        forall|j: int|
            i < j < settings.len() ==> (setting_of(
                #[trigger] settings[j],
                j as usize,
                rows,
                encoding,
            )->Ok_0).name != write.name,
    ensures
        (planned_writes(write_diffs, settings, rows, encoding)->Ok_0).dom().contains(write.name),
        (planned_writes(write_diffs, settings, rows, encoding)->Ok_0)[write.name] == write,
{
    let start = if write_diffs {
        by_name(resets_of(rows, encoding, "PX4 baseline"@))
    } else {
        Map::empty()
    };
    law_last_setting_counts(start, settings, rows, encoding, i, write);
}

/// A setting that cannot be carried out stops the plan: the error is that of the first such
/// setting.
pub proof fn law_bad_setting_stops(
    write_diffs: bool,
    settings: Seq<Seq<char>>,
    rows: Seq<RowView>,
    encoding: ParamEncoding,
    i: int,
)
    requires
        0 <= i < settings.len() <= usize::MAX,
        setting_of(settings[i], i as usize, rows, encoding) is Err,
        forall|j: int|
            0 <= j < i ==> setting_of(#[trigger] settings[j], j as usize, rows, encoding) is Ok,
    ensures
        planned_writes(write_diffs, settings, rows, encoding) == Err::<
            Map<Seq<char>, WriteView>,
            PlanError,
        >(setting_of(settings[i], i as usize, rows, encoding)->Err_0),
{
    let start = if write_diffs {
        by_name(resets_of(rows, encoding, "PX4 baseline"@))
    } else {
        Map::empty()
    };
    lemma_first_error(start, settings, rows, encoding, i);
}

proof fn lemma_first_error(
    start: Map<Seq<char>, WriteView>,
    settings: Seq<Seq<char>>,
    rows: Seq<RowView>,
    encoding: ParamEncoding,
    i: int,
)
    requires
        0 <= i < settings.len() <= usize::MAX,
        setting_of(settings[i], i as usize, rows, encoding) is Err,
        forall|j: int|
            0 <= j < i ==> setting_of(#[trigger] settings[j], j as usize, rows, encoding) is Ok,
    ensures
        with_settings(start, settings, rows, encoding) == Err::<
            Map<Seq<char>, WriteView>,
            PlanError,
        >(setting_of(settings[i], i as usize, rows, encoding)->Err_0),
    decreases settings.len(),
{
    let rest = settings.drop_last();
    if i < settings.len() - 1 {
        assert forall|j: int| 0 <= j < i implies setting_of(
            #[trigger] rest[j],
            j as usize,
            rows,
            encoding,
        ) is Ok by {
            assert(setting_of(settings[j], j as usize, rows, encoding) is Ok);
        }
        lemma_first_error(start, rest, rows, encoding, i);
    } else {
        lemma_all_good(start, settings, rows, encoding, i);
        assert(settings.take(i) =~= rest);
    }
}

proof fn lemma_all_good(
    start: Map<Seq<char>, WriteView>,
    settings: Seq<Seq<char>>,
    rows: Seq<RowView>,
    encoding: ParamEncoding,
    n: int,
)
    requires
        0 <= n <= settings.len() <= usize::MAX,
        forall|j: int|
            0 <= j < n ==> setting_of(#[trigger] settings[j], j as usize, rows, encoding) is Ok,
    ensures
        with_settings(start, settings.take(n), rows, encoding) is Ok,
    decreases n,
{
    if n > 0 {
        lemma_all_good(start, settings, rows, encoding, n - 1);
        assert(settings.take(n).drop_last() =~= settings.take(n - 1));
        assert(settings.take(n).last() == settings[n - 1]);
        assert(setting_of(settings[n - 1], (n - 1) as usize, rows, encoding) is Ok);
    }
}

/// The line on a planned write names the parameter, the value, the type, the encoding and where
/// the value comes from.
pub proof fn law_planned_line(write: &WriteRequest, value: &str, r: String)
    requires
        call_ensures(planned_write_line, (write, value), r),
    ensures
        r@ == "  "@ + write.name@ + " = "@ + value@ + " ("@ + type_text(write.mav_type) + ", "@
            + (match write.encoding {
            ParamEncoding::CCast => "CCast"@,
            ParamEncoding::Bytewise => "Bytewise"@,
        }) + ", "@ + write.source@ + ")"@,
{
}

/// Two types have the same name only if they are the same.
pub proof fn law_type_names(a: MavParamType, b: MavParamType)
    requires
        type_text(a) == type_text(b),
    ensures
        a == b,
{
    reveal_strlit("MAV_PARAM_TYPE_UINT8");
    reveal_strlit("MAV_PARAM_TYPE_INT8");
    reveal_strlit("MAV_PARAM_TYPE_UINT16");
    reveal_strlit("MAV_PARAM_TYPE_INT16");
    reveal_strlit("MAV_PARAM_TYPE_UINT32");
    reveal_strlit("MAV_PARAM_TYPE_INT32");
    reveal_strlit("MAV_PARAM_TYPE_UINT64");
    reveal_strlit("MAV_PARAM_TYPE_INT64");
    reveal_strlit("MAV_PARAM_TYPE_REAL32");
    reveal_strlit("MAV_PARAM_TYPE_REAL64");
    let x = type_text(a);
    let y = type_text(b);
    assert(x.len() == y.len());
    assert(x[15] == y[15]);
    assert(x[x.len() - 1] == y[y.len() - 1]);
    assert(x[x.len() - 2] == y[y.len() - 2]);
}

} // verus!
