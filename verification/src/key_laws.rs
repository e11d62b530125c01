//! What each key does to the interface, and what a confirmed write does to a row.

use vstd::prelude::*;

use crate::audit::resets_of;
use crate::audit_laws::small_integer;
use crate::detail::effective_type;
use crate::model::{AuditRow, RowView, WriteView};
use crate::numeral::decimal;
use crate::param::{equivalent, shown, write_value, ParamEncoding, ParamValue};
use crate::session::{JobView, LoopActionView, SessionView};
use crate::text::{contains_text, lowercase, trimmed};
use crate::tui::{
    fresh_app, index_named, listed, row_matches_query, updated_row, ActionView, AppView, KeyCode,
    KeyEvent, TuiMode,
};
use crate::tui_laws::law_list_is_exact;

verus! {

/// A key without any modifier.
pub open spec fn plain_key(code: KeyCode) -> KeyEvent {
    KeyEvent { code, control: false, shift: false, other: false }
}

/// The interface starts with all rows listed, the first selected, and nothing typed or pending.
pub proof fn law_start(rows: Seq<RowView>, lines: Seq<Seq<char>>, encoding: ParamEncoding, i: int)
    requires
        rows.len() <= usize::MAX,
        0 <= i < rows.len(),
    ensures
        ({
            let app = fresh_app(rows, lines, encoding);
            &&& app.rows == rows
            &&& app.filtered.len() == rows.len()
            &&& app.filtered[i] == i
            &&& app.context_lines == lines
            &&& app.write_encoding == encoding
            &&& app.query.len() == 0
            &&& app.edit_value.len() == 0
            &&& app.pending_writes.len() == 0
            &&& !app.show_diffs_only
            &&& app.mode == TuiMode::Browse
            &&& app.selected == 0
        }),
{
}

/// A row is listed exactly if it differs or all are shown, and if the search text, whatever its
/// case, occurs in its name, device value, baseline, source or status.
pub proof fn law_search(rows: Seq<RowView>, diffs_only: bool, query: Seq<char>, i: int)
    requires
        rows.len() <= usize::MAX,
        0 <= i < rows.len(),
    ensures
        listed(rows, diffs_only, query).contains(i as usize) <==> (!diffs_only || rows[i].status
            == "diff"@) && (query.len() == 0 || contains_text(lowercase(rows[i].name), query)
            || contains_text(lowercase(rows[i].current), query) || contains_text(
            lowercase(rows[i].baseline),
            query,
        ) || contains_text(lowercase(rows[i].source), query) || contains_text(
            lowercase(rows[i].status),
            query,
        )),
{
    law_list_is_exact(rows, diffs_only, query, i);
}

/// Typing in a search appends to the search text and lists anew; backspace takes the last
/// character off; Enter leaves the search with its text, Esc without it.
pub proof fn law_search_keys(app: AppView, c: char)
    requires
        app.mode == TuiMode::Search,
    ensures
        ({
            let (next, action) = app.after_key(plain_key(KeyCode::Char(c)));
            &&& action is Continue
            &&& next.query == app.query.push(c)
            &&& next.mode == TuiMode::Search
            &&& next.filtered == listed(
                app.rows,
                app.show_diffs_only,
                lowercase(app.query.push(c)),
            )
        }),
        ({
            let (next, action) = app.after_key(plain_key(KeyCode::Enter));
            action is Continue && next == (AppView { mode: TuiMode::Browse, ..app })
        }),
        ({
            let (next, action) = app.after_key(plain_key(KeyCode::Esc));
            &&& action is Continue
            &&& next.query.len() == 0
            &&& next.mode == TuiMode::Browse
            &&& next.filtered == listed(
                app.rows,
                app.show_diffs_only,
                lowercase(Seq::<char>::empty()),
            )
        }),
        ({
            let (next, action) = app.after_key(plain_key(KeyCode::Backspace));
            &&& action is Continue
            &&& next.mode == TuiMode::Search
            &&& app.query.len() > 0 ==> next.query == app.query.drop_last()
            &&& app.query.len() == 0 ==> next.query == app.query
        }),
{
}

/// Typing in an edit appends to the value, backspace takes the last character off, and Esc gives
/// the edit up without a write.
pub proof fn law_edit_keys(app: AppView, c: char)
    requires
        app.mode == TuiMode::Edit,
    ensures
        app.after_key(plain_key(KeyCode::Char(c))) == (
            (AppView { edit_value: app.edit_value.push(c), ..app }),
            ActionView::Continue,
        ),
        ({
            let (next, action) = app.after_key(plain_key(KeyCode::Esc));
            action is Continue && next.mode == TuiMode::Browse && next.edit_value.len() == 0
                && next.rows == app.rows && next.selected == app.selected && next.query == app.query
        }),
        ({
            let (next, action) = app.after_key(plain_key(KeyCode::Backspace));
            action is Continue && next.mode == TuiMode::Edit && (app.edit_value.len() > 0
                ==> next.edit_value == app.edit_value.drop_last())
        }),
{
}

/// Enter in an edit writes the typed number to the selected parameter in the type of its row, and
/// writes nothing where what is typed is no number.
pub proof fn law_edit_writes(app: AppView, row: RowView, key: KeyEvent)
    requires
        app.mode == TuiMode::Edit,
        key.code == KeyCode::Enter,
        app.selected < app.filtered.len(),
        app.filtered[app.selected as int] < app.rows.len(),
        row == app.rows[app.filtered[app.selected as int] as int],
    ensures
        write_value(trimmed(app.edit_value)) matches Ok(value) ==> app.after_key(key)
            == (
            app,
            ActionView::Write(
                WriteView {
                    name: row.name,
                    value,
                    mav_type: row.mav_type,
                    encoding: if small_integer(row.mav_type) {
                        app.write_encoding
                    } else {
                        ParamEncoding::CCast
                    },
                    source: "TUI edit"@,
                },
            ),
        ),
        write_value(trimmed(app.edit_value)) is Err ==> app.after_key(key).1 is Continue
            && app.after_key(key).0.mode == TuiMode::Edit && app.after_key(key).0.edit_value
            == app.edit_value,
{
}

/// The key for the default of the selected row writes the number of its baseline, in the type of
/// the row, where the device's value does not agree with it; a fallback is never written.
pub proof fn law_default_key(app: AppView, row: RowView)
    requires
        app.mode == TuiMode::Browse,
        app.selected < app.filtered.len(),
        app.filtered[app.selected as int] < app.rows.len(),
        row == app.rows[app.filtered[app.selected as int] as int],
    ensures
        ({
            let (next, action) = app.after_key(plain_key(KeyCode::Char('d')));
            let owed = !equivalent(row.current, row.baseline) && !row.baseline_fallback
                && write_value(row.baseline) is Ok;
            &&& action is Write <==> owed
            &&& !owed ==> action is Continue
            &&& owed ==> action == ActionView::Write(
                WriteView {
                    name: row.name,
                    value: write_value(row.baseline)->Ok_0,
                    mav_type: row.mav_type,
                    encoding: if small_integer(row.mav_type) {
                        app.write_encoding
                    } else {
                        ParamEncoding::CCast
                    },
                    source: "TUI default selected ("@ + row.source + ")"@,
                },
            )
            &&& next.rows == app.rows && next.mode == app.mode && next.selected == app.selected
        }),
{
}

/// The key for all defaults gathers the resets of all rows, listed or not, and asks; it writes
/// nothing itself.
pub proof fn law_default_all_key(app: AppView, key: KeyEvent)
    requires
        app.mode == TuiMode::Browse,
        key.code == KeyCode::Char('A'),
        !key.control,
        !key.other,
    ensures
        ({
            let (next, action) = app.after_key(key);
            let writes = resets_of(app.rows, app.write_encoding, "TUI default all"@);
            &&& action is Continue
            &&& next.pending_writes == writes
            &&& writes.len() > 0 ==> next.mode == TuiMode::ConfirmDefaults
            &&& writes.len() == 0 ==> next.mode == TuiMode::Browse
        }),
{
}

/// The answer yes writes all that is pending, no and Esc drop it, and any other key leaves the
/// question open.
pub proof fn law_confirm_keys(app: AppView, key: KeyEvent)
    requires
        app.mode == TuiMode::ConfirmDefaults,
    ensures
        key.code == KeyCode::Char('y') || key.code == KeyCode::Char('Y') ==> app.after_key(key) == (
            app,
            ActionView::WriteMany(app.pending_writes),
        ),
        key.code == KeyCode::Char('n') || key.code == KeyCode::Char('N') || key.code == KeyCode::Esc
            ==> app.after_key(key).1 is Continue && app.after_key(key).0.mode == TuiMode::Browse
            && app.after_key(key).0.pending_writes.len() == 0,
        !(key.code is Char) && key.code != KeyCode::Esc ==> app.after_key(key) == (
            app,
            ActionView::Continue,
        ),
        !(app.after_key(key).1 is WriteMany) ==> app.after_key(key).1 is Continue,
{
}

/// Moving down and up moves the selection by one row or a page, within the list; nothing else
/// changes.
pub proof fn law_moves(app: AppView)
    requires
        app.mode == TuiMode::Browse,
        app.selected < app.filtered.len(),
        app.filtered.len() <= usize::MAX,
    ensures
        ({
            let last = app.filtered.len() - 1;
            let down = app.after_key(plain_key(KeyCode::Down));
            let up = app.after_key(plain_key(KeyCode::Up));
            let page_down = app.after_key(plain_key(KeyCode::PageDown));
            let page_up = app.after_key(plain_key(KeyCode::PageUp));
            let top = app.after_key(plain_key(KeyCode::Char('g')));
            let bottom = app.after_key(plain_key(KeyCode::Char('G')));
            &&& app.selected < last ==> down.0.selected == app.selected + 1
            &&& app.selected == last ==> down.0.selected == last
            &&& app.selected > 0 ==> up.0.selected == app.selected - 1
            &&& app.selected == 0 ==> up.0.selected == 0
            &&& app.selected + 20 <= last ==> page_down.0.selected == app.selected + 20
            &&& app.selected + 20 > last ==> page_down.0.selected == last
            &&& app.selected >= 20 ==> page_up.0.selected == app.selected - 20
            &&& app.selected < 20 ==> page_up.0.selected == 0
            &&& top.0.selected == 0
            &&& bottom.0.selected == last
            &&& down.0 == (AppView { selected: down.0.selected, ..app })
            &&& up.0 == (AppView { selected: up.0.selected, ..app })
            &&& page_down.0 == (AppView { selected: page_down.0.selected, ..app })
            &&& page_up.0 == (AppView { selected: page_up.0.selected, ..app })
            &&& top.0 == (AppView { selected: 0, ..app })
            &&& bottom.0 == (AppView { selected: bottom.0.selected, ..app })
            &&& app.after_key(plain_key(KeyCode::Char('j'))) == down
            &&& app.after_key(plain_key(KeyCode::Char('k'))) == up
            &&& app.after_key(
                KeyEvent { code: KeyCode::Char('d'), control: true, shift: false, other: false },
            ) == page_down
            &&& app.after_key(
                KeyEvent { code: KeyCode::Char('u'), control: true, shift: false, other: false },
            ) == page_up
            &&& down.1 is Continue && up.1 is Continue && page_down.1 is Continue && page_up.1
                is Continue && top.1 is Continue && bottom.1 is Continue
        }),
{
}

/// The keys of the browser: `q` quits, `/` searches, `f` turns between all rows and those that
/// differ, `e` and Enter edit the selected value, and Esc clears the search.
pub proof fn law_browse_keys(app: AppView, row: RowView)
    requires
        app.mode == TuiMode::Browse,
        app.selected < app.filtered.len(),
        app.filtered[app.selected as int] < app.rows.len(),
        row == app.rows[app.filtered[app.selected as int] as int],
    ensures
        app.after_key(plain_key(KeyCode::Char('q'))) == (app, ActionView::Quit),
        app.after_key(plain_key(KeyCode::Char('/'))) == (
            AppView { mode: TuiMode::Search, ..app },
            ActionView::Continue,
        ),
        ({
            let (next, action) = app.after_key(plain_key(KeyCode::Char('f')));
            &&& action is Continue
            &&& next.show_diffs_only == !app.show_diffs_only
            &&& next.query == app.query
            &&& next.mode == TuiMode::Browse
            &&& next.filtered == listed(app.rows, !app.show_diffs_only, lowercase(app.query))
        }),
        ({
            let (next, action) = app.after_key(plain_key(KeyCode::Char('e')));
            &&& action is Continue
            &&& next.mode == TuiMode::Edit
            &&& next.edit_value == row.current
            &&& next.selected == app.selected
            &&& app.after_key(plain_key(KeyCode::Enter)) == (next, action)
        }),
        ({
            let (next, action) = app.after_key(plain_key(KeyCode::Esc));
            &&& action is Continue
            &&& next.query.len() == 0
            &&& next.show_diffs_only == app.show_diffs_only
            &&& next.filtered == listed(
                app.rows,
                app.show_diffs_only,
                lowercase(Seq::<char>::empty()),
            )
        }),
{
}

/// The popup opens for a row with bits, values or a boolean type, and for no other; it closes
/// again by the same keys, Enter or Esc.
pub proof fn law_popup_keys(app: AppView, row: RowView, key: KeyEvent)
    requires
        app.selected < app.filtered.len(),
        app.filtered[app.selected as int] < app.rows.len(),
        row == app.rows[app.filtered[app.selected as int] as int],
        key.code == KeyCode::Char('?') || key.code == KeyCode::Char('m'),
    ensures
        app.mode == TuiMode::Browse ==> app.after_key(key).1 is Continue && (app.after_key(
            key,
        ).0.mode == TuiMode::MetadataPopup <==> row.metadata is Some && ((
        row.metadata->0).bits.len() > 0 || (row.metadata->0).values.len() > 0 || (
        row.metadata->0).param_type == Some("boolean"@))),
        app.mode == TuiMode::MetadataPopup ==> app.after_key(key).1 is Continue && app.after_key(
            key,
        ).0.mode == TuiMode::Browse,
        app.mode == TuiMode::MetadataPopup ==> app.after_key(plain_key(KeyCode::Enter)).0.mode
            == TuiMode::Browse && app.after_key(plain_key(KeyCode::Esc)).0.mode == TuiMode::Browse,
{
}

/// A confirmed write changes the device's value and the status of its row: the value is shown in
/// the row's type and the device's encoding, and the status is that against the same baseline.
pub proof fn law_confirmed_row(row: RowView, confirmed: ParamValue, encoding: ParamEncoding)
    ensures
        ({
            let next = updated_row(row, confirmed, encoding);
            let t = effective_type(confirmed.mav_type, row.metadata);
            &&& next.name == row.name
            &&& next.baseline == row.baseline
            &&& next.source == row.source
            &&& next.baseline_fallback == row.baseline_fallback
            &&& next.metadata == row.metadata
            &&& next.mav_type == t
            &&& next.current == shown(
                ParamValue {
                    value: confirmed.value,
                    mav_type: t,
                    encoding: if small_integer(t) {
                        encoding
                    } else {
                        ParamEncoding::CCast
                    },
                },
            )
            &&& next.status == "match"@ ==> equivalent(next.current, row.baseline)
            &&& next.status == "diff"@ ==> !equivalent(next.current, row.baseline)
            &&& row.baseline == "<unknown>"@ ==> next.status == "unknown"@
            &&& row.baseline != "<unknown>"@ && next.current != "<missing>"@ && equivalent(
                next.current,
                row.baseline,
            ) ==> next.status == "match"@
        }),
{
    reveal_strlit("unknown");
    reveal_strlit("match");
    reveal_strlit("diff");
    assert("unknown"@.len() == 7 && "match"@.len() == 5 && "diff"@.len() == 4);
}

/// A confirmed edit updates the selected row and no other.
pub proof fn law_confirmed_edit(app: AppView, confirmed: ParamValue, i: int)
    requires
        app.selected < app.filtered.len(),
        app.filtered[app.selected as int] < app.rows.len(),
        0 <= i < app.rows.len(),
    ensures
        ({
            let next = app.selected_updated(confirmed);
            let at = app.filtered[app.selected as int] as int;
            &&& next.rows.len() == app.rows.len()
            &&& next.rows[at] == updated_row(app.rows[at], confirmed, app.write_encoding)
            &&& i != at ==> next.rows[i] == app.rows[i]
            &&& next.query == app.query
            &&& next.show_diffs_only == app.show_diffs_only
        }),
{
}

/// The row of a name is the first that has it.
pub proof fn law_index_named(rows: Seq<RowView>, name: Seq<char>, i: int)
    ensures
        0 <= i < rows.len() && rows[i].name == name && (forall|k: int|
            0 <= k < i ==> (#[trigger] rows[k]).name != name) ==> index_named(rows, name) == Some(
            i,
        ),
        (forall|k: int| 0 <= k < rows.len() ==> (#[trigger] rows[k]).name != name) ==> index_named(
            rows,
            name,
        ) is None,
    decreases rows.len(),
{
    if rows.len() > 0 {
        let rest = rows.drop_last();
        law_index_named(rest, name, i);
        if forall|k: int| 0 <= k < rows.len() ==> (#[trigger] rows[k]).name != name {
            assert(rows[rows.len() - 1].name != name);
            assert forall|k: int| 0 <= k < rest.len() implies (#[trigger] rest[k]).name != name by {
                assert(rows[k].name != name);
            }
        }
        if 0 <= i < rows.len() && (forall|k: int| 0 <= k < i ==> (#[trigger] rows[k]).name != name) {
            assert forall|k: int| 0 <= k < i && k < rest.len() implies (#[trigger] rest[k]).name
                != name by {
                assert(rows[k].name != name);
            }
        }
    }
}

/// A key that asks for a write sends it, and the session waits for its outcome; several go out one
/// by one from the first.
pub proof fn law_session_sends(session: SessionView, key: KeyEvent)
    ensures
        session.app.after_key(key).1 matches ActionView::Write(w) ==> session.after_key(key).1
            == LoopActionView::Send(w) && session.after_key(key).0.job == JobView::Single(w),
        session.app.after_key(key).1 matches ActionView::WriteMany(ws) ==> ws.len() > 0
            ==> session.after_key(key).1 == LoopActionView::Send(ws[0]) && session.after_key(
            key,
        ).0.job == JobView::Batch(ws, 0),
        session.app.after_key(key).1 is Continue ==> session.after_key(key).1 is Wait,
        session.app.after_key(key).1 is Quit ==> session.after_key(key).1 is Quit,
        session.app.after_key(key).1 is Continue ==> session.after_key(key).0.app
            == session.app.after_key(key).0,
{
}

/// A confirmed edit updates the selected row and ends the edit; a confirmed write of a batch
/// updates the row of its name. A failed one changes no row.
pub proof fn law_session_outcomes(
    session: SessionView,
    confirmed: ParamValue,
    reason: Seq<char>,
    writes: Seq<WriteView>,
    done: usize,
)
    ensures
        session.job is Single ==> session.after_confirmed(confirmed).0.app.rows
            == session.app.selected_updated(confirmed).rows && session.after_confirmed(
            confirmed,
        ).0.app.mode == TuiMode::Browse && session.after_confirmed(confirmed).0.job is Idle
            && session.after_confirmed(confirmed).1 is Wait,
        session.job is Single ==> session.after_failed(reason).0.app.rows == session.app.rows
            && session.after_failed(reason).0.job is Idle && session.after_failed(
            reason,
        ).0.app.status_message == "Write failed: "@ + reason,
        session.job == JobView::Batch(writes, done) && done < writes.len()
            ==> session.after_confirmed(confirmed).0.app.rows == session.app.named_updated(
            writes[done as int].name,
            confirmed,
        ).rows,
        session.job == JobView::Batch(writes, done) && done < writes.len() ==> session.after_failed(
            reason,
        ).0.app.rows == session.app.rows && session.after_failed(reason).0.app.status_message
            == "Stopped after "@ + decimal(done as nat) + "/"@ + decimal(writes.len())
            + " writes. "@ + writes[done as int].name + " failed: "@ + reason,
{
}

/// A row matches a search that is empty, or whose text occurs, in small letters, in its name,
/// device value, baseline, source or status.
pub proof fn law_row_matches(row: &AuditRow, query: &str, r: bool)
    requires
        call_ensures(row_matches_query, (row, query), r),
    ensures
        r <==> query@.len() == 0 || contains_text(lowercase(row.name@), query@) || contains_text(
            lowercase(row.current@),
            query@,
        ) || contains_text(lowercase(row.baseline@), query@) || contains_text(
            lowercase(row.source@),
            query@,
        ) || contains_text(lowercase(row.status@), query@),
{
}

} // verus!
