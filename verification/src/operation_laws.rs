//! What the operations do, said of their arguments and their results alone.

use std::collections::HashSet;
use vstd::prelude::*;

use crate::airframe::find_airframe_script;
use crate::airframe_laws::law_script_is_found;
use crate::apply::{WriteAction, WriteBatch, WriteEvent};
use crate::args::Args;
use crate::audit_laws::{decides, shows_baseline, silent, small_integer};
use crate::baseline::{
    layers_view, normalize_default_value, scripted_airframe, select_airframe, BaselineLayer,
};
use crate::collect::{update_param_collection, ReceivedParam};
use crate::confirm::{write_question, written_line};
use crate::connect::{parse_serial_connection, ConnectionError};
use crate::device_laws::{law_reading_score, law_scores, law_votes};
use crate::encoding::{
    encoding_scores, infer_global_integer_encoding, infer_param_encodings, param_integer_range,
    voted_encoding, votes,
};
use crate::firmware::FirmwareDefaults;
use crate::frame::{next_header, Header};
use crate::ieee::Real32;
use crate::key_laws::{law_default_key, law_edit_writes, law_index_named, plain_key};
use crate::model::{
    rows_view, writes_view, AuditRow, MetadataView, ParamMetadata, Recommendation,
    RecommendationView, WriteRequest,
};
use crate::numeral::{decimal, decimal_int};
use crate::output::{write_output_block, write_output_line};
use crate::param::{
    decoded, equivalent, shown, write_value, MavParamType, ParamEncoding, ParamValue,
    WriteValueError,
};
use crate::param_laws::law_integers_are_read;
use crate::plan::{build_write_plan, law_no_writes_unasked, PlanError};
use crate::run::{audit_device, settle_encoding};
use crate::session::{Job, LoopAction, LoopEvent, TuiSession};
use crate::table::{TextMap, TextSet};
use crate::text::{split_last, texts, trimmed};
use crate::text_laws::{law_after_prefix, law_split_last};
use crate::tui::{handle_key, updated_row, KeyCode, KeyEvent, TuiAction, TuiApp, TuiMode};
use crate::vehicle::{HeartbeatWait, WaitAction};
use crate::yaml::{entries_view, parse_param_metadata, scalar_text, Yaml};
use crate::yaml_laws::{first_with, lacks, law_metadata_fields, law_range};

verus! {

/// An audit gives one row for each parameter of the device, in the order of their names. Each
/// shows the default of the last given layer that has the parameter, whatever the airframe; else
/// that of the airframe, where there is no reason to fall back; else that of the firmware.
pub proof fn law_audit(
    params: &mut TextMap<ParamValue>,
    firmware: &FirmwareDefaults,
    airframe: TextMap<String>,
    indexes: &TextMap<String>,
    layers: &[BaselineLayer],
    integer_encoding: ParamEncoding,
    reason: Option<&str>,
    r: Vec<AuditRow>,
    i: int,
    j: int,
)
    requires
        call_ensures(
            audit_device,
            (params, firmware, airframe, indexes, layers, integer_encoding, reason),
            r,
        ),
        0 <= i < r@.len(),
        !firmware.serial_config_params@.contains(r@[i].name@),
    ensures
        r@.len() == final(params).keys().len(),
        r@[i].name@ == final(params).keys()[i],
        ({
            let name = r@[i].name@;
            let none = forall|k: int|
                0 <= k < layers@.len() ==> !(#[trigger] layers@[k]).defaults@.dom().contains(name);
            let last = 0 <= j < layers@.len() && layers@[j].defaults@.dom().contains(name)
                && forall|k: int|
                j < k < layers@.len() ==> !(#[trigger] layers@[k]).defaults@.dom().contains(name);
            &&& last ==> r@[i].baseline@ == layers@[j].defaults@[name] && r@[i].source@
                == layers@[j].source@ && r@[i].baseline_fallback == layers@[j].fallback
            &&& none && reason is None && airframe@.dom().contains(name) ==> r@[i].baseline@
                == airframe@[name] && r@[i].source@ == "airframe default"@
                && !r@[i].baseline_fallback
            &&& none && reason is None && !airframe@.dom().contains(name)
                && firmware.defaults@.dom().contains(name) ==> r@[i].baseline@
                == firmware.defaults@[name] && r@[i].source@ == "firmware default"@
                && !r@[i].baseline_fallback
            &&& none && reason is Some && firmware.defaults@.dom().contains(name)
                ==> r@[i].baseline@ == firmware.defaults@[name] && r@[i].baseline_fallback
            &&& none && (reason is Some || !airframe@.dom().contains(name))
                && !firmware.defaults@.dom().contains(name) ==> r@[i].baseline@ == "<unknown>"@
                && r@[i].status@ == "unknown"@
        }),
{
    let views = layers_view(layers@);
    let name = r@[i].name@;
    assert(shows_baseline(
        r@[i]@,
        firmware.defaults@,
        airframe@,
        views,
        reason is Some,
        firmware.serial_config_params@,
        indexes@,
    ));
    if 0 <= j < layers@.len() && layers@[j].defaults@.dom().contains(name) && (forall|k: int|
        j < k < layers@.len() ==> !(#[trigger] layers@[k]).defaults@.dom().contains(name)) {
        assert(views[j] == layers@[j]@);
        assert forall|k: int| j < k < views.len() implies !(
        #[trigger] views[k]).defaults.dom().contains(name) by {
            assert(!layers@[k].defaults@.dom().contains(name));
        }
        assert(decides(views, j, name));
    }
    if forall|k: int|
        0 <= k < layers@.len() ==> !(#[trigger] layers@[k]).defaults@.dom().contains(name) {
        assert forall|k: int| 0 <= k < views.len() implies !(
        #[trigger] views[k]).defaults.dom().contains(name) by {
            assert(!layers@[k].defaults@.dom().contains(name));
        }
        assert(silent(views, name));
    }
}

/// An audit reads the device's integers in the settled encoding, and changes nothing else of what
/// was received.
pub proof fn law_audit_keeps_values(
    params: &mut TextMap<ParamValue>,
    firmware: &FirmwareDefaults,
    airframe: TextMap<String>,
    indexes: &TextMap<String>,
    layers: &[BaselineLayer],
    integer_encoding: ParamEncoding,
    reason: Option<&str>,
    r: Vec<AuditRow>,
    i: int,
)
    requires
        call_ensures(
            audit_device,
            (params, firmware, airframe, indexes, layers, integer_encoding, reason),
            r,
        ),
        0 <= i < r@.len(),
    ensures
        old(params)@.dom().contains(r@[i].name@),
        ({
            let name = r@[i].name@;
            let p = old(params)@[name];
            let m = firmware.metadata@;
            &&& final(params)@.dom() == old(params)@.dom()
            &&& final(params)@[name].value == p.value
            &&& final(params)@[name].mav_type == p.mav_type
            &&& !m.dom().contains(name) ==> r@[i].mav_type == p.mav_type && r@[i].metadata is None
                && r@[i].current@ == shown(
                ParamValue {
                    value: p.value,
                    mav_type: p.mav_type,
                    encoding: if small_integer(p.mav_type) {
                        integer_encoding
                    } else {
                        ParamEncoding::CCast
                    },
                },
            )
            &&& m.dom().contains(name) ==> (r@[i].metadata matches Some(x) && x@ == m[name])
        }),
{
    let keys = final(params).keys();
    assert(rows_view(r@)[i] == r@[i]@);
    assert(r@[i].name@ == keys[i]);
    assert(keys.contains(keys[i]));
    assert(final(params)@.dom() =~= old(params)@.dom());
}

/// The encoding that the device claims is taken; only without a claim is it inferred.
pub proof fn law_claimed_encoding_is_settled(
    params: &mut TextMap<ParamValue>,
    firmware: &FirmwareDefaults,
    indexes: &TextMap<String>,
    layers: &[BaselineLayer],
    claimed: ParamEncoding,
    r: ParamEncoding,
    name: Seq<char>,
)
    requires
        call_ensures(settle_encoding, (params, firmware, indexes, layers, Some(claimed)), r),
    ensures
        r == claimed,
        final(params)@.dom() =~= old(params)@.dom(),
        old(params)@.dom().contains(name) ==> final(params)@[name].value == old(params)@[name].value
            && final(params)@[name].mav_type == old(params)@[name].mav_type,
        old(params)@.dom().contains(name) && small_integer(old(params)@[name].mav_type) ==> final(params)@[name].encoding == claimed,
        old(params)@.dom().contains(name) && !small_integer(old(params)@[name].mav_type) ==> final(params)@[name].encoding == ParamEncoding::CCast,
{
}

/// The encodings that are inferred change the encodings of integers, all to the one that is given
/// back, and nothing else.
pub proof fn law_inferred_encoding(
    params: &mut TextMap<ParamValue>,
    metadata: &TextMap<ParamMetadata>,
    recs: &TextMap<Recommendation>,
    preferred: Option<ParamEncoding>,
    r: ParamEncoding,
    name: Seq<char>,
)
    requires
        call_ensures(infer_param_encodings, (params, metadata, recs, preferred), r),
        old(params)@.dom().contains(name),
    ensures
        preferred is Some ==> Some(r) == preferred,
        final(params)@.dom().contains(name),
        final(params)@[name].value == old(params)@[name].value,
        final(params)@[name].mav_type == old(params)@[name].mav_type,
        small_integer(old(params)@[name].mav_type) ==> final(params)@[name].encoding == r,
{
}

/// The metadata of a definition: each text behind a key lands in the field of that name.
pub proof fn law_parsed_metadata(body: &Vec<(Yaml, Yaml)>, r: ParamMetadata, i: int)
    requires
        call_ensures(parse_param_metadata, (body,), r),
    ensures
        ({
            let entries = entries_view(body@);
            &&& first_with(entries, i, "min"@) ==> (r.min matches Some(s) && s@ == scalar_text(
                entries[i].1,
            ))
            &&& first_with(entries, i, "max"@) ==> (r.max matches Some(s) && s@ == scalar_text(
                entries[i].1,
            ))
            &&& first_with(entries, i, "unit"@) ==> (r.unit matches Some(s) && s@ == scalar_text(
                entries[i].1,
            ))
            &&& first_with(entries, i, "type"@) ==> (r.param_type matches Some(s) && s@
                == scalar_text(entries[i].1))
            &&& first_with(entries, i, "decimal"@) ==> (r.decimal matches Some(s) && s@
                == scalar_text(entries[i].1))
            &&& lacks(entries, "min"@) ==> r.min is None
            &&& lacks(entries, "max"@) ==> r.max is None
            &&& lacks(entries, "unit"@) ==> r.unit is None
            &&& lacks(entries, "type"@) ==> r.param_type is None
            &&& lacks(entries, "decimal"@) ==> r.decimal is None
        }),
{
    law_metadata_fields(entries_view(body@), i);
}

/// The range of a parameter is that between its least and its greatest value.
pub proof fn law_integer_range(m: &ParamMetadata, r: Option<(i64, i64)>, a: i64, b: i64)
    requires
        call_ensures(param_integer_range, (m,), r),
        m.min matches Some(s) && s@ == decimal_int(a as int),
        m.max matches Some(s) && s@ == decimal_int(b as int),
    ensures
        a <= b ==> r == Some((a, b)),
        a > b ==> r is None,
{
    law_range(m@, a, b);
}

/// Enter in an edit writes the typed number to the parameter of the selected row, in its type.
pub proof fn law_edited_value_is_written(app: &mut TuiApp, key: KeyEvent, r: TuiAction)
    requires
        call_ensures(handle_key, (app, key), r),
        old(app).mode == TuiMode::Edit,
        key.code == KeyCode::Enter,
        old(app).selected < old(app).filtered@.len(),
        old(app).filtered@[old(app).selected as int] < old(app).rows@.len(),
    ensures
        ({
            let row = old(app).rows@[old(app).filtered@[old(app).selected as int] as int];
            &&& write_value(trimmed(old(app).edit_value@)) is Ok ==> (r matches TuiAction::Write(w)
                && w.name@ == row.name@ && w.mav_type == row.mav_type && Ok::<
                Real32,
                WriteValueError,
            >(w.value) == write_value(trimmed(old(app).edit_value@)) && w.encoding == (
            if small_integer(row.mav_type) {
                old(app).write_encoding
            } else {
                ParamEncoding::CCast
            }))
            &&& write_value(trimmed(old(app).edit_value@)) is Err ==> r is Continue
        }),
{
    let row = old(app).rows@[old(app).filtered@[old(app).selected as int] as int];
    assert(old(app)@.rows[old(app).filtered@[old(app).selected as int] as int] == row@);
    law_edit_writes(old(app)@, row@, key);
}

/// The key for the default of the selected row writes that row's baseline, in its type, where the
/// device's value does not agree with it and it is no fallback.
pub proof fn law_selected_default_is_written(app: &mut TuiApp, r: TuiAction)
    requires
        call_ensures(handle_key, (app, plain_key(KeyCode::Char('d'))), r),
        old(app).mode == TuiMode::Browse,
        old(app).selected < old(app).filtered@.len(),
        old(app).filtered@[old(app).selected as int] < old(app).rows@.len(),
    ensures
        ({
            let row = old(app).rows@[old(app).filtered@[old(app).selected as int] as int];
            let owed = !equivalent(row.current@, row.baseline@) && !row.baseline_fallback
                && write_value(row.baseline@) is Ok;
            &&& owed ==> (r matches TuiAction::Write(w) && w.name@ == row.name@ && w.mav_type
                == row.mav_type && Ok::<Real32, WriteValueError>(w.value) == write_value(
                row.baseline@,
            ) && w.encoding == (if small_integer(row.mav_type) {
                old(app).write_encoding
            } else {
                ParamEncoding::CCast
            }))
            &&& !owed ==> r is Continue
        }),
{
    let row = old(app).rows@[old(app).filtered@[old(app).selected as int] as int];
    assert(old(app)@.rows[old(app).filtered@[old(app).selected as int] as int] == row@);
    law_default_key(old(app)@, row@);
}

/// A new interface lists all rows.
pub proof fn law_new_interface(
    rows: Vec<AuditRow>,
    lines: Vec<String>,
    encoding: ParamEncoding,
    r: TuiApp,
    i: int,
)
    requires
        call_ensures(TuiApp::new, (rows, lines, encoding), r),
        0 <= i < rows@.len() <= usize::MAX,
    ensures
        r.rows@.len() == rows@.len(),
        r.rows@[i].name@ == rows@[i].name@,
        r.rows@[i].current@ == rows@[i].current@,
        r.rows@[i].baseline@ == rows@[i].baseline@,
        r.filtered@.len() == rows@.len(),
        r.filtered@[i] == i,
        r.write_encoding == encoding,
        r.selected == 0,
        r.mode == TuiMode::Browse,
        !r.show_diffs_only,
{
    assert(r@.rows[i] == rows_view(rows@)[i]);
    assert(r@.rows[i] == r.rows@[i]@);
}

/// A write that the device confirms updates the row of its name: the confirmed value becomes the
/// device's value, and the row keeps its baseline.
pub proof fn law_confirmed_value_is_shown(
    app: &mut TuiApp,
    name: &str,
    confirmed: ParamValue,
    i: int,
)
    requires
        call_ensures(TuiApp::update_value_by_name, (app, name, confirmed), ()),
        0 <= i < old(app).rows@.len(),
        old(app).rows@[i].name@ == name@,
        forall|k: int| 0 <= k < i ==> (#[trigger] old(app).rows@[k]).name@ != name@,
        old(app).rows@[i].metadata is None,
    ensures
        final(app).rows@.len() == old(app).rows@.len(),
        final(app).rows@[i].name@ == name@,
        final(app).rows@[i].baseline@ == old(app).rows@[i].baseline@,
        final(app).rows@[i].source@ == old(app).rows@[i].source@,
        final(app).rows@[i].current@ == shown(
            ParamValue {
                value: confirmed.value,
                mav_type: confirmed.mav_type,
                encoding: if small_integer(confirmed.mav_type) {
                    old(app).write_encoding
                } else {
                    ParamEncoding::CCast
                },
            },
        ),
{
    let rows = rows_view(old(app).rows@);
    assert forall|k: int| 0 <= k < i implies (#[trigger] rows[k]).name != name@ by {
        assert(old(app).rows@[k].name@ != name@);
    }
    assert(rows[i] == old(app).rows@[i]@);
    law_index_named(rows, name@, i);
    assert(final(app)@.rows[i] == updated_row(rows[i], confirmed, old(app).write_encoding));
    assert(final(app)@.rows[i] == final(app).rows@[i]@);
}

/// A failed write ends a batch of the interface, and says which failed; a confirmed one goes on
/// with the next.
pub proof fn law_session_steps(
    session: &mut TuiSession,
    event: LoopEvent,
    r: LoopAction,
    writes: Vec<WriteRequest>,
    done: usize,
)
    requires
        call_ensures(TuiSession::step, (session, event), r),
        old(session).job matches Job::Batch(ws, d) && ws == writes && d == done,
        done < writes@.len(),
    ensures
        event is Failed ==> r is Wait && final(session).job is Idle,
        event is Confirmed && done + 1 < writes@.len() ==> (r matches LoopAction::Send(w) && w.name@
            == writes@[done + 1].name@ && w.value == writes@[done + 1].value && w.mav_type
            == writes@[done + 1].mav_type && w.encoding == writes@[done + 1].encoding),
        event is Confirmed && done + 1 == writes@.len() ==> r is Wait && final(session).job is Idle,
{
    assert(final(session)@.job is Idle <==> final(session).job is Idle);
    if done + 1 < writes@.len() {
        assert(writes_view(writes@)[done + 1] == writes@[done + 1]@);
    }
}

/// A batch of writes starts with the first, goes on with the next once one is confirmed, which it
/// reports, and stops at the first that fails.
pub proof fn law_batch_steps(
    batch: &mut WriteBatch,
    event: WriteEvent,
    out: &mut String,
    r: WriteAction,
)
    requires
        call_ensures(WriteBatch::step, (batch, event, out), r),
        !old(batch).failed,
        old(batch).done < old(batch).writes@.len(),
    ensures
        event is Failed ==> r is Stop && final(out)@ == old(out)@ && final(batch).failed,
        event is Started ==> (r matches WriteAction::Send(w) && w.name@ == old(batch).writes@[old(batch).done as int].name@) && final(out)@ == old(out)@,
        event matches WriteEvent::Confirmed(p) ==> final(out)@ == old(out)@ + ("set "@ + old(batch).writes@[old(batch).done as int].name@ + " = "@ + shown(p)).push('\n'),
        event is Confirmed && old(batch).done + 1 < old(batch).writes@.len() ==> (
        r matches WriteAction::Send(w) && w.name@ == old(batch).writes@[old(batch).done + 1].name@
            && w.value == old(batch).writes@[old(batch).done + 1].value && w.mav_type == old(batch).writes@[old(batch).done + 1].mav_type && w.encoding == old(batch).writes@[old(batch).done
            + 1].encoding),
        event is Confirmed && old(batch).done + 1 == old(batch).writes@.len() ==> r is Finish,
{
    let views = writes_view(old(batch).writes@);
    let d = old(batch).done as int;
    assert(views[d] == old(batch).writes@[d]@);
    if d + 1 < views.len() {
        assert(views[d + 1] == old(batch).writes@[d + 1]@);
    }
    assert(old(out)@ + Seq::<char>::empty() =~= old(out)@);
}

/// A parameter that arrives is remembered under its name with its value and type, and its index is
/// ticked off.
pub proof fn law_parameter_arrives(
    param: ReceivedParam,
    params: &mut TextMap<ParamValue>,
    received: &mut HashSet<u16>,
    expected: &mut usize,
    other: Seq<char>,
)
    requires
        call_ensures(update_param_collection, (param, params, received, expected), ()),
        param.name@.len() > 0,
    ensures
        final(params)@.dom().contains(param.name@),
        final(params)@[param.name@].value == param.value,
        final(params)@[param.name@].mav_type == param.mav_type,
        final(received)@ == old(received)@.insert(param.index),
        *final(expected) >= param.count,
        *final(expected) >= *old(expected),
        *final(expected) == *old(expected) || *final(expected) == param.count,
        other != param.name@ && old(params)@.dom().contains(other) ==> final(params)@.dom().contains(
            other,
        ) && final(params)@[other] == old(params)@[other],
{
}

/// A plan without any ask writes nothing; with the diffs asked for, it writes them.
pub proof fn law_unasked_plan(
    args: &Args,
    rows: &[AuditRow],
    encoding: ParamEncoding,
    r: Result<Vec<WriteRequest>, PlanError>,
)
    requires
        call_ensures(build_write_plan, (args, rows, encoding), r),
    ensures
        !args.write_diffs ==> r == Err::<Vec<WriteRequest>, PlanError>(PlanError::NothingToWrite),
{
    law_no_writes_unasked(rows_view(rows@), encoding);
}

/// A VOXL device is asked for by SSH or by ADB.
pub proof fn law_voxl_requested(args: &Args, r: bool)
    requires
        call_ensures(Args::voxl_requested, (args,), r),
    ensures
        r <==> args.voxl_ssh is Some || args.voxl_adb is Some,
{
}

/// The airframe that is asked for counts before that of the device, and 0 selects no script.
pub proof fn law_selected_airframe(
    asked: Option<i32>,
    device: Option<i32>,
    selected: Option<i32>,
    scripted: Option<i32>,
)
    requires
        call_ensures(select_airframe, (asked, device), selected),
        call_ensures(scripted_airframe, (selected,), scripted),
    ensures
        asked is Some ==> selected == asked,
        asked is None ==> selected == device,
        selected == Some(0i32) ==> scripted is None,
        selected != Some(0i32) ==> scripted == selected,
{
}

/// The script of an airframe is named by its number, and the first of that name is taken.
pub proof fn law_found_script(names: &[String], id: i32, r: Option<String>, i: int)
    requires
        call_ensures(find_airframe_script, (names, id), r),
    ensures
        0 <= i < names@.len() && (decimal_int(id as int) + "_"@).is_prefix_of(names@[i]@) && (
        forall|k: int|
            0 <= k < i ==> !(decimal_int(id as int) + "_"@).is_prefix_of((#[trigger] names@[k])@))
            ==> (r matches Some(s) && s@ == names@[i]@),
        (forall|k: int|
            0 <= k < names@.len() ==> !(decimal_int(id as int) + "_"@).is_prefix_of(
                (#[trigger] names@[k])@,
            )) ==> r is None,
{
    let all = texts(names@);
    let prefix = decimal_int(id as int) + "_"@;
    assert forall|k: int| 0 <= k < all.len() implies #[trigger] all[k] == names@[k]@ by {}
    law_script_is_found(all, prefix, i);
}

/// A default stands for itself, except that a parameter that chooses a serial port takes the index
/// behind the label.
pub proof fn law_normalized_default(
    name: &str,
    value: String,
    serial: &TextSet,
    indexes: &TextMap<String>,
    r: (String, Option<String>),
)
    requires
        call_ensures(normalize_default_value, (name, value, serial, indexes), r),
    ensures
        !serial@.contains(name@) ==> r.0@ == value@ && r.1 is None,
        !indexes@.dom().contains(trimmed(value@)) ==> r.0@ == value@ && r.1 is None,
        serial@.contains(name@) && indexes@.dom().contains(trimmed(value@)) ==> r.0@
            == indexes@[trimmed(value@)] && (r.1 matches Some(l) && l@ == trimmed(value@)),
{
}

/// A serial connection string without a speed, or with one that is no number, is refused.
pub proof fn law_bad_serial_connections(
    connect: &str,
    rest: Seq<char>,
    r: Result<(String, u32), ConnectionError>,
)
    requires
        call_ensures(parse_serial_connection, (connect,), r),
    ensures
        !"serial:"@.is_prefix_of(connect@) ==> r == Err::<(String, u32), ConnectionError>(
            ConnectionError::NotSerial,
        ),
        connect@ == "serial:"@ + rest && (forall|i: int| 0 <= i < rest.len() ==> rest[i] != ':')
            ==> r == Err::<(String, u32), ConnectionError>(ConnectionError::NoBaud),
{
    law_after_prefix("serial:"@, rest);
    law_split_last(rest, ':');
    if let Some((a, b)) = split_last(rest, ':') {
        assert(rest[a.len() as int] == ':');
    }
}

/// The heads of frames count up from one to the next, and start over behind the last number.
pub proof fn law_heads(sequence: &mut u8, r: Header)
    requires
        call_ensures(next_header, (sequence,), r),
    ensures
        r.system_id == 255,
        r.component_id == 190,
        r.sequence == *old(sequence),
        *old(sequence) < 255 ==> *final(sequence) == *old(sequence) + 1,
        *old(sequence) == 255 ==> *final(sequence) == 0,
{
}

/// A line is appended with a line break, a block with one where it has none.
pub proof fn law_appended(out: &mut String, block: &mut String, text: &str)
    requires
        call_ensures(write_output_line, (out, text), ()),
        call_ensures(write_output_block, (block, text), ()),
    ensures
        final(out)@ == old(out)@ + text@.push('\n'),
        text@.len() > 0 && text@.last() == '\n' ==> final(block)@ == old(block)@ + text@,
        text@.len() == 0 || text@.last() != '\n' ==> final(block)@ == old(block)@ + text@.push(
            '\n',
        ),
{
}

/// The wait for a vehicle sends a sign of life at once, and again when the next is due, until its
/// time is over.
pub proof fn law_heartbeat_wait(wait: &mut HeartbeatWait, now: u64, r: WaitAction)
    requires
        call_ensures(HeartbeatWait::poll, (wait, now), r),
    ensures
        now >= old(wait).deadline ==> r == WaitAction::TimedOut,
        now < old(wait).deadline && now >= old(wait).next_beat ==> r == WaitAction::Beat,
        now < old(wait).deadline && now < old(wait).next_beat ==> r == WaitAction::Receive,
        final(wait).deadline == old(wait).deadline,
        r == WaitAction::Beat && now <= u64::MAX - 900 ==> final(wait).next_beat == now + 900,
        r != WaitAction::Beat ==> final(wait).next_beat == old(wait).next_beat,
{
}

/// What is said of a write: how many are asked about, and which value was set.
pub proof fn law_write_texts(
    count: usize,
    name: &str,
    confirmed: &ParamValue,
    question: String,
    line: String,
)
    requires
        call_ensures(write_question, (count,), question),
        call_ensures(written_line, (name, confirmed), line),
    ensures
        question@ == "write "@ + decimal(count as nat)
            + " parameter(s) to PX4? Type 'yes' to continue: "@,
        line@ == "set "@ + name@ + " = "@ + shown(*confirmed),
{
}

/// The encoding that the parameters speak for is bytewise only with a majority of their votes.
pub proof fn law_global_encoding(
    params: &TextMap<ParamValue>,
    metadata: &TextMap<ParamMetadata>,
    recs: &TextMap<Recommendation>,
    r: ParamEncoding,
)
    requires
        call_ensures(infer_global_integer_encoding, (params, metadata, recs), r),
    ensures
        r == ParamEncoding::Bytewise <==> votes(params.keys(), params@, metadata@, recs@) > 0,
        r == ParamEncoding::CCast <==> votes(params.keys(), params@, metadata@, recs@) <= 0,
{
}

/// Of the two scores of a parameter, the first is that of the bytewise reading.
pub proof fn law_encoding_scores(p: &ParamValue, r: (i32, i32))
    requires
        call_ensures(encoding_scores, (p, None, None), r),
        small_integer(p.mav_type),
        !p.value.finite(),
    ensures
        r.0 == 1,
        r.1 == -10,
{
    law_integers_are_read(p.value, p.mav_type, 0);
    law_scores(*p, None, None);
}

/// A parameter whose value is no number, so that it can only be read bytewise, votes for bytewise.
pub proof fn law_clear_vote(
    name: Seq<char>,
    params: Map<Seq<char>, ParamValue>,
    metadata: Map<Seq<char>, MetadataView>,
    recs: Map<Seq<char>, RecommendationView>,
)
    requires
        small_integer(params[name].mav_type),
        !params[name].value.finite(),
        !metadata.dom().contains(name),
    ensures
        voted_encoding(seq![name], params, metadata, recs) == ParamEncoding::Bytewise,
{
    let none = Seq::<Seq<char>>::empty();
    assert(none.push(name) =~= seq![name]);
    law_votes(none, name, params, metadata, recs);
    law_votes(seq![name], name, params, metadata, recs);
    law_integers_are_read(params[name].value, params[name].mav_type, 0);
}

/// A whole number that is the baseline, and lies in the range, votes for being read as it is where
/// its bytes read as something else.
pub proof fn law_clear_ccast_vote(
    name: Seq<char>,
    params: Map<Seq<char>, ParamValue>,
    metadata: Map<Seq<char>, MetadataView>,
    recs: Map<Seq<char>, RecommendationView>,
    a: i64,
    b: i64,
    n: i64,
)
    requires
        params[name].mav_type == MavParamType::Int32,
        params[name].value.finite(),
        params[name].value.off_whole() == 0,
        params[name].value.rounded() == n,
        i32::MIN <= n <= i32::MAX,
        !(a <= params[name].value.bits <= b),
        params[name].value.bits <= i32::MAX,
        params[name].value.field() >= 0x0080_0000,
        a <= n <= b,
        metadata.dom().contains(name),
        metadata[name].min == Some(decimal_int(a as int)),
        metadata[name].max == Some(decimal_int(b as int)),
        recs.dom().contains(name),
        recs[name].value == decimal_int(n as int),
    ensures
        voted_encoding(seq![name], params, metadata, recs) == ParamEncoding::CCast,
        votes(seq![name], params, metadata, recs) < 0,
{
    let p = params[name];
    let none = Seq::<Seq<char>>::empty();
    assert(none.push(name) =~= seq![name]);
    law_votes(none, name, params, metadata, recs);
    law_votes(seq![name], name, params, metadata, recs);
    law_integers_are_read(p.value, p.mav_type, n as int);
    law_integers_are_read(p.value, p.mav_type, p.value.bits as int);
    law_scores(p, Some(metadata[name]), Some(recs[name]));
    let bytes = decoded(p.value, p.mav_type, ParamEncoding::Bytewise);
    let number = decoded(p.value, p.mav_type, ParamEncoding::CCast);
    assert(bytes == Some(p.value.bits as i64));
    assert(number == Some(n));
    law_reading_score(bytes, metadata[name], recs[name], a, b, n);
    law_reading_score(number, metadata[name], recs[name], a, b, n);
}

} // verus!
