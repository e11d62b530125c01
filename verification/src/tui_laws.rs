//! What holds of the terminal interface, whatever keys are pressed.

use vstd::prelude::*;

use crate::audit::{law_resets_are_owed, reset_of};
use crate::ieee::Real32;
use crate::model::RowView;
use crate::param::{equivalent, write_value, ParamEncoding, ParamValue, WriteValueError};
use crate::text::{lowercase, without_last};
use crate::tui::{
    clamped, fresh_app, index_named, listed, matches_query, updated_row, visible, AppView, KeyCode,
    KeyEvent, TuiMode,
};

verus! {

/// Whether the state is consistent: the list holds the rows that are shown and match, the
/// selection lies in it, and the writes that wait for an answer are those that reset all rows.
pub open spec fn consistent(app: AppView) -> bool {
    &&& app.rows.len() <= usize::MAX
    &&& app.filtered == listed(app.rows, app.show_diffs_only, lowercase(app.query))
    &&& app.selected == clamped(app.selected, app.filtered.len())
    &&& app.mode == TuiMode::ConfirmDefaults ==> app.pending_writes == app.default_writes()
}

/// A listed index is that of a row that is shown and matches; every such row is listed, once, and
/// the list keeps the order of the rows.
pub proof fn law_list_is_exact(rows: Seq<RowView>, diffs_only: bool, query: Seq<char>, i: int)
    requires
        rows.len() <= usize::MAX,
        0 <= i < rows.len(),
    ensures
        listed(rows, diffs_only, query).contains(i as usize) <==> visible(rows[i], diffs_only)
            && matches_query(rows[i], query),
        forall|j: int, k: int|
            0 <= j < k < listed(rows, diffs_only, query).len() ==> #[trigger] listed(
                rows,
                diffs_only,
                query,
            )[j] < #[trigger] listed(rows, diffs_only, query)[k],
        forall|j: int|
            0 <= j < listed(rows, diffs_only, query).len() ==> #[trigger] listed(
                rows,
                diffs_only,
                query,
            )[j] < rows.len(),
    decreases rows.len(),
{
    let rest = rows.drop_last();
    let before = listed(rest, diffs_only, query);
    let all = listed(rows, diffs_only, query);
    if rest.len() > 0 {
        let m = if i < rest.len() {
            i
        } else {
            0
        };
        law_list_is_exact(rest, diffs_only, query, m);
    } else {
        assert(before =~= Seq::empty());
    }
    if i < rest.len() {
        assert(rest[i] == rows[i]);
        if before.contains(i as usize) {
            let j = choose|j: int| 0 <= j < before.len() && before[j] == i as usize;
            assert(all[j] == i as usize);
        }
        if all.contains(i as usize) {
            let j = choose|j: int| 0 <= j < all.len() && all[j] == i as usize;
            if j < before.len() {
                assert(before[j] == i as usize);
            }
        }
    } else {
        if visible(rows[i], diffs_only) && matches_query(rows[i], query) {
            assert(all[all.len() - 1] == i as usize);
        } else if all.contains(i as usize) {
            let j = choose|j: int| 0 <= j < all.len() && all[j] == i as usize;
            assert(before[j] < rest.len());
        }
    }
    assert forall|j: int, k: int| 0 <= j < k < all.len() implies #[trigger] all[j]
        < #[trigger] all[k] by {
        if k < before.len() {
            assert(all[j] == before[j] && all[k] == before[k]);
        } else {
            assert(all[j] == before[j]);
        }
    }
    assert forall|j: int| 0 <= j < all.len() implies #[trigger] all[j] < rows.len() by {
        if j < before.len() {
            assert(all[j] == before[j]);
        }
    }
}

proof fn lemma_everything_listed(rows: Seq<RowView>)
    requires
        rows.len() <= usize::MAX,
    ensures
        listed(rows, false, Seq::empty()) == Seq::new(rows.len(), |i: int| i as usize),
    decreases rows.len(),
{
    if rows.len() > 0 {
        lemma_everything_listed(rows.drop_last());
    }
    assert(listed(rows, false, Seq::empty()) =~= Seq::new(rows.len(), |i: int| i as usize));
}

/// The interface starts in a consistent state.
pub proof fn law_start_is_consistent(
    rows: Seq<RowView>,
    lines: Seq<Seq<char>>,
    encoding: ParamEncoding,
)
    requires
        rows.len() <= usize::MAX,
    ensures
        consistent(fresh_app(rows, lines, encoding)),
{
    lemma_everything_listed(rows);
    assert(lowercase(Seq::empty()) =~= Seq::empty());
}

proof fn lemma_refiltered(app: AppView)
    requires
        app.rows.len() <= usize::MAX,
        app.mode != TuiMode::ConfirmDefaults,
    ensures
        consistent(app.refiltered()),
{
}

proof fn lemma_popup_key(app: AppView, key: KeyEvent)
    requires
        consistent(app),
        app.mode != TuiMode::ConfirmDefaults,
    ensures
        consistent(app.popup_key(key).0),
{
}

proof fn lemma_confirm_key(app: AppView, key: KeyEvent)
    requires
        consistent(app),
    ensures
        consistent(app.confirm_key(key).0),
{
}

proof fn lemma_search_key(app: AppView, key: KeyEvent)
    requires
        consistent(app),
        app.mode == TuiMode::Search,
    ensures
        consistent(app.search_key(key).0),
{
    let next = match key.code {
        KeyCode::Esc => AppView { mode: TuiMode::Browse, query: Seq::empty(), ..app },
        KeyCode::Backspace => AppView { query: without_last(app.query), ..app },
        KeyCode::Char(c) => AppView {
            query: if c == 'u' && key.control {
                Seq::empty()
            } else {
                app.query.push(c)
            },
            ..app
        },
        _ => app,
    };
    lemma_refiltered(next);
}

proof fn lemma_edit_key(app: AppView, key: KeyEvent)
    requires
        consistent(app),
        app.mode == TuiMode::Edit,
    ensures
        consistent(app.edit_key(key).0),
{
}

proof fn lemma_browse_key(app: AppView, key: KeyEvent)
    requires
        consistent(app),
        app.mode == TuiMode::Browse,
    ensures
        consistent(app.browse_key(key).0),
{
    lemma_refiltered(AppView { show_diffs_only: !app.show_diffs_only, ..app });
    lemma_refiltered(AppView { query: Seq::empty(), ..app });
    assert(consistent(app.toggled()));
    assert(consistent(app.searching(Seq::empty())));
    assert(consistent(app.opened()));
    assert(consistent(app.editing()));
    assert(consistent(app.default_write().0));
    assert(consistent(app.confirming()));
    assert(consistent(app.at_bottom()));
    assert(consistent(app.moved_down(1)));
    assert(consistent(app.moved_up(1)));
    assert(consistent(app.moved_down(20)));
    assert(consistent(app.moved_up(20)));
}

/// Every key keeps the state consistent.
pub proof fn law_keys_keep_consistent(app: AppView, key: KeyEvent)
    requires
        consistent(app),
    ensures
        consistent(app.after_key(key).0),
{
    match app.mode {
        TuiMode::MetadataPopup => lemma_popup_key(app, key),
        TuiMode::ConfirmDefaults => lemma_confirm_key(app, key),
        TuiMode::Search => lemma_search_key(app, key),
        TuiMode::Edit => lemma_edit_key(app, key),
        TuiMode::Browse => lemma_browse_key(app, key),
    }
}

/// Every confirmed value keeps the state consistent, outside of the question whether to reset all
/// rows.
pub proof fn law_updates_keep_consistent(app: AppView, name: Seq<char>, confirmed: ParamValue)
    requires
        consistent(app),
        app.mode != TuiMode::ConfirmDefaults,
    ensures
        consistent(app.selected_updated(confirmed)),
        consistent(app.named_updated(name, confirmed)),
{
    lemma_index_named(app.rows, name);
}

/// In a consistent state with a list that is not empty a row is selected.
pub proof fn law_selection_is_valid(app: AppView)
    requires
        consistent(app),
        app.filtered.len() > 0,
    ensures
        app.selected < app.filtered.len(),
        app.selected_row() is Some,
{
    law_list_is_exact(app.rows, app.show_diffs_only, lowercase(app.query), 0);
}

/// Browsing writes nothing: a write comes from Enter on an edited value or from the plain key for
/// the selected default, several writes from a yes to the question whether to reset all rows.
pub proof fn law_writes_are_asked_for(app: AppView, key: KeyEvent)
    ensures
        app.after_key(key).1 is Write ==> (app.mode == TuiMode::Edit && key.code == KeyCode::Enter)
            || (app.mode == TuiMode::Browse && key.code == KeyCode::Char('d') && !key.control
            && !key.shift && !key.other),
        app.after_key(key).1 is WriteMany ==> app.mode == TuiMode::ConfirmDefaults && (key.code
            == KeyCode::Char('y') || key.code == KeyCode::Char('Y')),
{
}

/// A key that asks for writes leaves the state as it is.
pub proof fn law_writes_wait(app: AppView, key: KeyEvent)
    requires
        app.after_key(key).1 is Write || app.after_key(key).1 is WriteMany,
    ensures
        app.after_key(key).0 == app,
{
}

/// The writes that a yes asks for reset rows that differ from baselines of their own: no fallback
/// is written.
pub proof fn law_confirmed_writes_are_resets(app: AppView, key: KeyEvent, k: int)
    requires
        consistent(app),
        app.after_key(key).1 is WriteMany,
        0 <= k < (app.after_key(key).1->WriteMany_0).len(),
    ensures
        exists|i: int|
            0 <= i < app.rows.len() && #[trigger] reset_of(
                app.rows[i],
                app.write_encoding,
                "TUI default all"@,
            ) == Some((app.after_key(key).1->WriteMany_0)[k]) && app.rows[i].status == "diff"@
                && !app.rows[i].baseline_fallback,
{
    law_resets_are_owed(app.rows, app.write_encoding, "TUI default all"@, k);
}

/// The key for the selected default writes the number of the row's own baseline, and only where
/// the value differs from it: a fallback is refused.
pub proof fn law_selected_default_is_owed(app: AppView, key: KeyEvent)
    requires
        app.mode == TuiMode::Browse,
        app.after_key(key).1 is Write,
    ensures
        app.selected_row() is Some,
        !(app.selected_row()->0).baseline_fallback,
        !equivalent((app.selected_row()->0).current, (app.selected_row()->0).baseline),
        (app.after_key(key).1->Write_0).name == (app.selected_row()->0).name,
        write_value((app.selected_row()->0).baseline) == Ok::<
            Real32,
            WriteValueError,
        >((app.after_key(key).1->Write_0).value),
{
}

/// Toggling the kind of list twice gives the list back.
pub proof fn law_toggle_twice(app: AppView)
    requires
        consistent(app),
    ensures
        app.toggled().toggled().filtered == app.filtered,
        app.toggled().toggled().show_diffs_only == app.show_diffs_only,
        app.toggled().toggled().rows == app.rows,
        app.toggled().toggled().query == app.query,
{
}

/// A search and the list of diffs work together: with diffs alone shown, the list holds those of
/// the rows that match which differ.
pub proof fn law_diffs_within_search(rows: Seq<RowView>, query: Seq<char>, i: int)
    requires
        rows.len() <= usize::MAX,
        0 <= i < rows.len(),
    ensures
        listed(rows, true, query).contains(i as usize) <==> listed(rows, false, query).contains(
            i as usize,
        ) && rows[i].status == "diff"@,
{
    law_list_is_exact(rows, true, query, i);
    law_list_is_exact(rows, false, query, i);
}

/// Keys change no row.
pub proof fn law_keys_keep_rows(app: AppView, key: KeyEvent)
    ensures
        app.after_key(key).0.rows == app.rows,
        app.after_key(key).0.context_lines == app.context_lines,
        app.after_key(key).0.write_encoding == app.write_encoding,
{
}

/// A confirmed value changes one row at most, and of it the value, its type and its status.
pub proof fn law_update_changes_one_row(
    app: AppView,
    name: Seq<char>,
    confirmed: ParamValue,
    i: int,
)
    requires
        0 <= i < app.rows.len(),
    ensures
        app.named_updated(name, confirmed).rows.len() == app.rows.len(),
        index_named(app.rows, name) != Some(i) ==> app.named_updated(name, confirmed).rows[i]
            == app.rows[i],
        index_named(app.rows, name) == Some(i) ==> app.named_updated(name, confirmed).rows[i]
            == updated_row(app.rows[i], confirmed, app.write_encoding),
        app.named_updated(name, confirmed).rows[i].name == app.rows[i].name,
        app.named_updated(name, confirmed).rows[i].baseline == app.rows[i].baseline,
        app.named_updated(name, confirmed).rows[i].source == app.rows[i].source,
        app.named_updated(name, confirmed).rows[i].baseline_fallback
            == app.rows[i].baseline_fallback,
        app.named_updated(name, confirmed).rows[i].metadata == app.rows[i].metadata,
{
    lemma_index_named(app.rows, name);
}

proof fn lemma_index_named(rows: Seq<RowView>, name: Seq<char>)
    ensures
        match index_named(rows, name) {
            Some(i) => 0 <= i < rows.len() && rows[i].name == name,
            None => true,
        },
    decreases rows.len(),
{
    if rows.len() > 0 {
        lemma_index_named(rows.drop_last(), name);
    }
}

} // verus!
