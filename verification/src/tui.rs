//! The state of the terminal interface, and what keys and confirmed writes do to it.

use vstd::prelude::*;

use crate::audit::{opt_write, resets_of, row_resets};
use crate::detail::{effective_mav_type, effective_type, has_choices, row_has_metadata_choices};
use crate::model::{copy_writes, rows_view, writes_view, AuditRow, RowView, WriteRequest, WriteView};
use crate::numeral::{decimal, decimal_text};
use crate::param::{
    classify_status, equivalent, format_param, parse_write_value, shown, status_of,
    values_equivalent, write_encoding, write_encoding_for_type, write_value, write_value_message,
    write_value_text, ParamEncoding, ParamValue,
};
use crate::text::{
    contains_text, drop_last_char, from_chars, has_text, lowercase, same_str, texts, to_chars,
    to_lower, trim, trimmed, without_last,
};

verus! {

/// What the keys are for.
#[derive(Clone, Copy, Debug, PartialEq, Eq, Structural)]
pub enum TuiMode {
    /// Moving around.
    Browse,
    /// Typing a search.
    Search,
    /// Typing a value.
    Edit,
    /// Answering whether to reset all values.
    ConfirmDefaults,
    /// Reading the choices of a parameter.
    MetadataPopup,
}

/// A key of the keyboard.
#[derive(Clone, Copy, Debug, PartialEq, Eq, Structural)]
pub enum KeyCode {
    /// A character.
    Char(char),
    /// Enter.
    Enter,
    /// Escape.
    Esc,
    /// Backspace.
    Backspace,
    /// The up arrow.
    Up,
    /// The down arrow.
    Down,
    /// Page up.
    PageUp,
    /// Page down.
    PageDown,
    /// Any other key.
    Other,
}

/// A key press.
#[derive(Clone, Copy, Debug, PartialEq, Eq, Structural)]
pub struct KeyEvent {
    /// The key.
    pub code: KeyCode,
    /// Whether control is held.
    pub control: bool,
    /// Whether shift is held.
    pub shift: bool,
    /// Whether some other modifier is held.
    pub other: bool,
}

/// What a key asks for.
pub enum TuiAction {
    /// Nothing more.
    Continue,
    /// To leave.
    Quit,
    /// To write one value.
    Write(WriteRequest),
    /// To write several values.
    WriteMany(Vec<WriteRequest>),
}

/// The view of an action.
pub enum ActionView {
    /// Nothing more.
    Continue,
    /// To leave.
    Quit,
    /// To write one value.
    Write(WriteView),
    /// To write several values.
    WriteMany(Seq<WriteView>),
}

impl View for TuiAction {
    type V = ActionView;

    open spec fn view(&self) -> ActionView {
        match self {
            TuiAction::Continue => ActionView::Continue,
            TuiAction::Quit => ActionView::Quit,
            TuiAction::Write(w) => ActionView::Write(w@),
            TuiAction::WriteMany(ws) => ActionView::WriteMany(writes_view(ws@)),
        }
    }
}

/// The state of the terminal interface.
pub struct TuiApp {
    /// The rows of the audit.
    pub rows: Vec<AuditRow>,
    /// The indexes of the rows that are listed.
    pub filtered: Vec<usize>,
    /// The lines on the baseline.
    pub context_lines: Vec<String>,
    /// The encoding in which integers are written.
    pub write_encoding: ParamEncoding,
    /// The search.
    pub query: String,
    /// The value that is typed.
    pub edit_value: String,
    /// The writes that wait for an answer.
    pub pending_writes: Vec<WriteRequest>,
    /// Whether only rows that differ are listed.
    pub show_diffs_only: bool,
    /// What the keys are for.
    pub mode: TuiMode,
    /// Which of the listed rows is selected.
    pub selected: usize,
    /// The last message.
    pub status_message: String,
}

/// The view of the terminal interface.
pub struct AppView {
    /// The rows of the audit.
    pub rows: Seq<RowView>,
    /// The indexes of the rows that are listed.
    pub filtered: Seq<usize>,
    /// The lines on the baseline.
    pub context_lines: Seq<Seq<char>>,
    /// The encoding in which integers are written.
    pub write_encoding: ParamEncoding,
    /// The search.
    pub query: Seq<char>,
    /// The value that is typed.
    pub edit_value: Seq<char>,
    /// The writes that wait for an answer.
    pub pending_writes: Seq<WriteView>,
    /// Whether only rows that differ are listed.
    pub show_diffs_only: bool,
    /// What the keys are for.
    pub mode: TuiMode,
    /// Which of the listed rows is selected.
    pub selected: usize,
    /// The last message.
    pub status_message: Seq<char>,
}

impl View for TuiApp {
    type V = AppView;

    open spec fn view(&self) -> AppView {
        AppView {
            rows: rows_view(self.rows@),
            filtered: self.filtered@,
            context_lines: texts(self.context_lines@),
            write_encoding: self.write_encoding,
            query: self.query@,
            edit_value: self.edit_value@,
            pending_writes: writes_view(self.pending_writes@),
            show_diffs_only: self.show_diffs_only,
            mode: self.mode,
            selected: self.selected,
            status_message: self.status_message@,
        }
    }
}

/// Whether a row is shown at all.
pub open spec fn visible(row: RowView, diffs_only: bool) -> bool {
    !diffs_only || row.status == "diff"@
}

/// Whether a row has the lower-case query in one of its texts.
pub open spec fn matches_query(row: RowView, query: Seq<char>) -> bool {
    query.len() == 0 || contains_text(lowercase(row.name), query) || contains_text(
        lowercase(row.current),
        query,
    ) || contains_text(lowercase(row.baseline), query) || contains_text(
        lowercase(row.source),
        query,
    ) || contains_text(lowercase(row.status), query)
}

/// The indexes of the rows that are shown and match, in their order.
pub open spec fn listed(rows: Seq<RowView>, diffs_only: bool, query: Seq<char>) -> Seq<usize>
    decreases rows.len(),
{
    if rows.len() == 0 {
        Seq::empty()
    } else {
        let before = listed(rows.drop_last(), diffs_only, query);
        if visible(rows.last(), diffs_only) && matches_query(rows.last(), query) {
            before.push((rows.len() - 1) as usize)
        } else {
            before
        }
    }
}

/// A selection moved onto the last item, if it lies beyond it.
pub open spec fn clamped(selected: usize, len: nat) -> usize {
    if len == 0 {
        0
    } else if selected >= len {
        (len - 1) as usize
    } else {
        selected
    }
}

impl AppView {
    /// The row that is selected.
    pub open spec fn selected_row(self) -> Option<RowView> {
        if self.selected < self.filtered.len() && self.filtered[self.selected as int]
            < self.rows.len() {
            Some(self.rows[self.filtered[self.selected as int] as int])
        } else {
            None
        }
    }

    /// With the list made anew.
    pub open spec fn refiltered(self) -> AppView {
        let filtered = listed(self.rows, self.show_diffs_only, lowercase(self.query));
        AppView { filtered, selected: clamped(self.selected, filtered.len()), ..self }
    }

    /// With a message.
    pub open spec fn saying(self, message: Seq<char>) -> AppView {
        AppView { status_message: message, ..self }
    }

    /// With the other kind of list.
    pub open spec fn toggled(self) -> AppView {
        let next = (AppView { show_diffs_only: !self.show_diffs_only, ..self }).refiltered();
        next.saying(
            if next.show_diffs_only {
                "Showing "@ + decimal(next.filtered.len()) + " differing parameter(s)"@
            } else {
                "Showing all "@ + decimal(next.rows.len()) + " parameter(s)"@
            },
        )
    }

    /// With the selection further down.
    pub open spec fn moved_down(self, amount: int) -> AppView {
        if self.filtered.len() == 0 {
            self
        } else if self.selected + amount < self.filtered.len() {
            AppView { selected: (self.selected + amount) as usize, ..self }
        } else {
            AppView { selected: (self.filtered.len() - 1) as usize, ..self }
        }
    }

    /// With the selection further up.
    pub open spec fn moved_up(self, amount: int) -> AppView {
        AppView {
            selected: (if self.selected >= amount {
                self.selected - amount
            } else {
                0
            }) as usize,
            ..self
        }
    }

    /// With the selected value under edit.
    pub open spec fn editing(self) -> AppView {
        match self.selected_row() {
            Some(row) => AppView {
                edit_value: row.current,
                mode: TuiMode::Edit,
                status_message: "Editing "@ + row.name + ". Enter writes, Esc cancels."@,
                ..self
            },
            None => self,
        }
    }

    /// What resetting the selected row comes to, and the write that it asks for.
    pub open spec fn default_write(self) -> (AppView, Option<WriteView>) {
        match self.selected_row() {
            None => (self, None),
            Some(row) => if equivalent(row.current, row.baseline) {
                (self.saying(row.name + " already matches PX4 baseline"@), None)
            } else if row.baseline_fallback {
                (
                    self.saying(
                        "Refusing to write fallback QGC-style baseline for "@ + row.name,
                    ),
                    None,
                )
            } else {
                match write_value(row.baseline) {
                    Ok(value) => (
                        self,
                        Some(
                            WriteView {
                                name: row.name,
                                value,
                                mav_type: row.mav_type,
                                encoding: write_encoding(row.mav_type, self.write_encoding),
                                source: "TUI default selected ("@ + row.source + ")"@,
                            },
                        ),
                    ),
                    Err(_) => (
                        self.saying("No single numeric PX4 baseline for "@ + row.name),
                        None,
                    ),
                }
            },
        }
    }

    /// The writes that reset all rows.
    pub open spec fn default_writes(self) -> Seq<WriteView> {
        resets_of(self.rows, self.write_encoding, "TUI default all"@)
    }

    /// With the question whether to reset all rows.
    pub open spec fn confirming(self) -> AppView {
        let writes = self.default_writes();
        if writes.len() == 0 {
            AppView {
                pending_writes: writes,
                status_message:
                    "No numeric non-default values have a known PX4 baseline to write"@,
                ..self
            }
        } else {
            AppView {
                pending_writes: writes,
                mode: TuiMode::ConfirmDefaults,
                status_message: "WARNING: reset "@ + decimal(writes.len())
                    + " numeric non-default value(s) on the device? y=yes n=no"@,
                ..self
            }
        }
    }
}

/// A row after its new value was confirmed.
pub open spec fn updated_row(row: RowView, confirmed: ParamValue, encoding: ParamEncoding) -> RowView {
    let mav_type = effective_type(confirmed.mav_type, row.metadata);
    let current = shown(
        ParamValue {
            value: confirmed.value,
            mav_type,
            encoding: write_encoding(mav_type, encoding),
        },
    );
    RowView { current, mav_type, status: status_of(current, row.baseline), ..row }
}

/// The index of the first row of the given name.
pub open spec fn index_named(rows: Seq<RowView>, name: Seq<char>) -> Option<int>
    decreases rows.len(),
{
    if rows.len() == 0 {
        None
    } else {
        match index_named(rows.drop_last(), name) {
            Some(i) => Some(i),
            None => if rows.last().name == name {
                Some(rows.len() - 1)
            } else {
                None
            },
        }
    }
}

impl AppView {
    /// After the new value of the selected row was confirmed.
    pub open spec fn selected_updated(self, confirmed: ParamValue) -> AppView {
        match self.selected_row() {
            Some(row) => {
                let next = updated_row(row, confirmed, self.write_encoding);
                (AppView {
                    rows: self.rows.update(self.filtered[self.selected as int] as int, next),
                    status_message: "Set "@ + next.name + " = "@ + next.current,
                    ..self
                }).refiltered()
            },
            None => self.refiltered(),
        }
    }

    /// After the new value of the row of the given name was confirmed.
    pub open spec fn named_updated(self, name: Seq<char>, confirmed: ParamValue) -> AppView {
        match index_named(self.rows, name) {
            Some(i) => (AppView {
                rows: self.rows.update(
                    i,
                    updated_row(self.rows[i], confirmed, self.write_encoding),
                ),
                ..self
            }).refiltered(),
            None => self.refiltered(),
        }
    }
}

/// The state at the start: all rows are listed.
pub open spec fn fresh_app(
    rows: Seq<RowView>,
    context_lines: Seq<Seq<char>>,
    encoding: ParamEncoding,
) -> AppView {
    AppView {
        rows,
        filtered: Seq::new(rows.len(), |i: int| i as usize),
        context_lines,
        write_encoding: encoding,
        query: Seq::empty(),
        edit_value: Seq::empty(),
        pending_writes: Seq::empty(),
        show_diffs_only: false,
        mode: TuiMode::Browse,
        selected: 0,
        status_message: "Browse: f diffs/all, e/Enter edit, d default selected, A default all"@,
    }
}

/// Whether the query is in one of the five texts of a row.
pub fn any_has_text(
    name: &str,
    current: &str,
    baseline: &str,
    source: &str,
    status: &str,
    query: &str,
) -> (r: bool)
    ensures
        r == (contains_text(name@, query@) || contains_text(current@, query@) || contains_text(
            baseline@,
            query@,
        ) || contains_text(source@, query@) || contains_text(status@, query@)),
{
    has_text(name, query) || has_text(current, query) || has_text(baseline, query) || has_text(
        source,
        query,
    ) || has_text(status, query)
}

/// Whether a row has the lower-case query in one of its texts; an empty query is in all.
pub fn row_matches_query(row: &AuditRow, query: &str) -> (r: bool)
    ensures
        r == matches_query(row@, query@),
{
    if query.is_empty() {
        return true;
    }
    let name = to_lower(row.name.as_str());
    let current = to_lower(row.current.as_str());
    let baseline = to_lower(row.baseline.as_str());
    let source = to_lower(row.source.as_str());
    let status = to_lower(row.status.as_str());
    any_has_text(
        name.as_str(),
        current.as_str(),
        baseline.as_str(),
        source.as_str(),
        status.as_str(),
        query,
    )
}

fn updated(row: &AuditRow, confirmed: &ParamValue, encoding: ParamEncoding) -> (r: AuditRow)
    ensures
        r@ == updated_row(row@, *confirmed, encoding),
{
    let mav_type = match &row.metadata {
        Some(m) => effective_mav_type(confirmed.mav_type, Some(m)),
        None => effective_mav_type(confirmed.mav_type, None),
    };
    let current = format_param(
        &ParamValue {
            value: confirmed.value,
            mav_type,
            encoding: write_encoding_for_type(mav_type, encoding),
        },
    );
    let status = classify_status(current.as_str(), row.baseline.as_str());
    AuditRow {
        name: row.name.clone(),
        current,
        baseline: row.baseline.clone(),
        source: row.source.clone(),
        status,
        baseline_fallback: row.baseline_fallback,
        mav_type,
        metadata: match &row.metadata {
            Some(m) => Some(m.clone()),
            None => None,
        },
    }
}

fn phrase(a: &str, b: &str, c: &str) -> (r: String)
    ensures
        r@ == a@ + b@ + c@,
{
    let mut out = String::from_str(a);
    out.append(b);
    out.append(c);
    out
}

fn counted(a: &str, n: usize, c: &str) -> (r: String)
    ensures
        r@ == a@ + decimal(n as nat) + c@,
{
    let b = decimal_text(n as u128);
    phrase(a, b.as_str(), c)
}

impl TuiApp {
    /// The state at the start: all rows are listed.
    pub fn new(rows: Vec<AuditRow>, context_lines: Vec<String>, write_encoding: ParamEncoding) -> (r:
        TuiApp)
        ensures
            r@ == fresh_app(rows_view(rows@), texts(context_lines@), write_encoding),
    {
        let mut filtered: Vec<usize> = Vec::new();
        for i in 0..rows.len()
            invariant
                filtered@.len() == i,
                forall|k: int| 0 <= k < i ==> #[trigger] filtered@[k] == k as usize,
        {
            filtered.push(i);
        }
        let r = TuiApp {
            rows,
            filtered,
            context_lines,
            write_encoding,
            query: String::new(),
            edit_value: String::new(),
            pending_writes: Vec::new(),
            show_diffs_only: false,
            mode: TuiMode::Browse,
            selected: 0,
            status_message: String::from_str(
                "Browse: f diffs/all, e/Enter edit, d default selected, A default all",
            ),
        };
        assert(r@.filtered =~= Seq::new(r@.rows.len(), |i: int| i as usize));
        assert(r@.pending_writes =~= Seq::empty());
        r
    }

    /// The row that is selected.
    pub fn selected_row(&self) -> (r: Option<&AuditRow>)
        ensures
            match r {
                Some(row) => self@.selected_row() == Some(row@),
                None => self@.selected_row() is None,
            },
    {
        if self.selected < self.filtered.len() {
            let index: usize = self.filtered[self.selected];
            if index < self.rows.len() {
                return Some(&self.rows[index]);
            }
        }
        None
    }

    /// Whether a row is shown at all.
    pub fn row_is_visible(&self, row: &AuditRow) -> (r: bool)
        ensures
            r == visible(row@, self.show_diffs_only),
    {
        !self.show_diffs_only || same_str(row.status.as_str(), "diff")
    }

    /// What kind of list is shown.
    pub fn view_label(&self) -> (r: &'static str)
        ensures
            r@ == (if self.show_diffs_only {
                "diffs only"@
            } else {
                "all params"@
            }),
    {
        if self.show_diffs_only {
            "diffs only"
        } else {
            "all params"
        }
    }

    /// Moves a selection that lies beyond the list onto its last item.
    pub fn clamp_selection(&mut self)
        ensures
            final(self)@ == (AppView {
                selected: clamped(old(self).selected, old(self).filtered@.len()),
                ..old(self)@
            }),
    {
        if self.filtered.len() == 0 {
            self.selected = 0;
        } else if self.selected >= self.filtered.len() {
            self.selected = self.filtered.len() - 1;
        }
    }

    /// Lists the rows that are shown and match the search, whatever its case.
    pub fn apply_filter(&mut self)
        ensures
            final(self)@ == old(self)@.refiltered(),
    {
        let query = to_lower(self.query.as_str());
        let ghost all = rows_view(self.rows@);
        let mut filtered: Vec<usize> = Vec::new();
        for i in 0..self.rows.len()
            invariant
                all == rows_view(self.rows@),
                filtered@ == listed(all.take(i as int), self.show_diffs_only, query@),
        {
            proof {
                assert(all.take(i + 1).drop_last() =~= all.take(i as int));
                assert(all.take(i + 1).last() == self.rows@[i as int]@);
            }
            let row = &self.rows[i];
            if self.row_is_visible(row) && row_matches_query(row, query.as_str()) {
                filtered.push(i);
            }
        }
        assert(all.take(all.len() as int) =~= all);
        self.filtered = filtered;
        self.clamp_selection();
    }

    /// Lists the rows that differ alone, or all rows again.
    pub fn toggle_diffs_only(&mut self)
        ensures
            final(self)@ == old(self)@.toggled(),
    {
        self.show_diffs_only = !self.show_diffs_only;
        self.apply_filter();
        self.status_message = if self.show_diffs_only {
            counted("Showing ", self.filtered.len(), " differing parameter(s)")
        } else {
            counted("Showing all ", self.rows.len(), " parameter(s)")
        };
    }

    /// Moves the selection down, to the last item at most.
    pub fn move_down(&mut self, amount: usize)
        ensures
            final(self)@ == old(self)@.moved_down(amount as int),
    {
        if self.filtered.len() > 0 {
            let last: usize = self.filtered.len() - 1;
            if self.selected > last || amount > last - self.selected {
                self.selected = last;
            } else {
                self.selected = self.selected + amount;
            }
        }
    }

    /// Moves the selection up, to the first item at most.
    pub fn move_up(&mut self, amount: usize)
        ensures
            final(self)@ == old(self)@.moved_up(amount as int),
    {
        if self.selected >= amount {
            self.selected = self.selected - amount;
        } else {
            self.selected = 0;
        }
    }

    /// Starts to edit the selected value.
    pub fn start_edit(&mut self)
        ensures
            final(self)@ == old(self)@.editing(),
    {
        let found = match self.selected_row() {
            Some(row) => Some((row.name.clone(), row.current.clone())),
            None => None,
        };
        if let Some((name, current)) = found {
            self.edit_value = current;
            self.mode = TuiMode::Edit;
            self.status_message = phrase(
                "Editing ",
                name.as_str(),
                ". Enter writes, Esc cancels.",
            );
        }
    }

    fn replace_row(&mut self, index: usize, confirmed: &ParamValue)
        requires
            index < old(self).rows@.len(),
        ensures
            final(self)@ == (AppView {
                rows: old(self)@.rows.update(
                    index as int,
                    updated_row(old(self)@.rows[index as int], *confirmed, old(self).write_encoding),
                ),
                ..old(self)@
            }),
            final(self).rows@.len() == old(self).rows@.len(),
    {
        let ghost before = self@;
        let row = updated(&self.rows[index], confirmed, self.write_encoding);
        let ghost next = row@;
        self.rows.set(index, row);
        assert(self@.rows =~= before.rows.update(index as int, next));
    }

    /// Takes in the confirmed value of the selected row.
    pub fn update_selected_value(&mut self, confirmed: ParamValue)
        ensures
            final(self)@ == old(self)@.selected_updated(confirmed),
    {
        if self.selected < self.filtered.len() {
            let index: usize = self.filtered[self.selected];
            if index < self.rows.len() {
                self.replace_row(index, &confirmed);
                let row = &self.rows[index];
                let mut message = phrase("Set ", row.name.as_str(), " = ");
                message.append(row.current.as_str());
                assert(self@.rows[index as int] == row@);
                self.status_message = message;
            }
        }
        self.apply_filter();
    }

    /// Takes in the confirmed value of the row of the given name.
    pub fn update_value_by_name(&mut self, name: &str, confirmed: ParamValue)
        ensures
            final(self)@ == old(self)@.named_updated(name@, confirmed),
    {
        let ghost all = rows_view(self.rows@);
        let mut found: Option<usize> = None;
        for i in 0..self.rows.len()
            invariant
                all == rows_view(self.rows@),
                match found {
                    Some(k) => k < i && index_named(all.take(i as int), name@) == Some(k as int),
                    None => index_named(all.take(i as int), name@) is None,
                },
        {
            proof {
                assert(all.take(i + 1).drop_last() =~= all.take(i as int));
                assert(all.take(i + 1).last() == self.rows@[i as int]@);
            }
            if found.is_none() && same_str(self.rows[i].name.as_str(), name) {
                found = Some(i);
            }
        }
        assert(all.take(all.len() as int) =~= all);
        if let Some(i) = found {
            self.replace_row(i, &confirmed);
        }
        self.apply_filter();
    }

    /// The write that resets the selected row, if one is owed; else says why not.
    pub fn selected_default_write(&mut self) -> (r: Option<WriteRequest>)
        ensures
            (final(self)@, opt_write(r)) == old(self)@.default_write(),
    {
        let (name, matches, fallback, value, mav_type, source) = match self.selected_row() {
            Some(row) => (
                row.name.clone(),
                values_equivalent(row.current.as_str(), row.baseline.as_str()),
                row.baseline_fallback,
                parse_write_value(row.baseline.as_str()),
                row.mav_type,
                row.source.clone(),
            ),
            None => {
                return None;
            },
        };
        if matches {
            let mut message = name;
            message.append(" already matches PX4 baseline");
            self.status_message = message;
            return None;
        }
        if fallback {
            let mut message = String::from_str(
                "Refusing to write fallback QGC-style baseline for ",
            );
            message.append(name.as_str());
            self.status_message = message;
            return None;
        }
        match value {
            Ok(value) => Some(
                WriteRequest {
                    name,
                    value,
                    mav_type,
                    encoding: write_encoding_for_type(mav_type, self.write_encoding),
                    source: phrase("TUI default selected (", source.as_str(), ")"),
                },
            ),
            Err(_) => {
                let mut message = String::from_str("No single numeric PX4 baseline for ");
                message.append(name.as_str());
                self.status_message = message;
                None
            },
        }
    }

    /// The writes that reset all rows.
    pub fn default_diff_writes(&self) -> (r: Vec<WriteRequest>)
        ensures
            writes_view(r@) == self@.default_writes(),
    {
        row_resets(self.rows.as_slice(), self.write_encoding, "TUI default all")
    }

    /// Asks whether to reset all rows, if any row calls for it.
    pub fn start_default_all_confirmation(&mut self)
        ensures
            final(self)@ == old(self)@.confirming(),
    {
        self.pending_writes = self.default_diff_writes();
        if self.pending_writes.len() == 0 {
            self.status_message = String::from_str(
                "No numeric non-default values have a known PX4 baseline to write",
            );
            return;
        }
        self.mode = TuiMode::ConfirmDefaults;
        self.status_message = counted(
            "WARNING: reset ",
            self.pending_writes.len(),
            " numeric non-default value(s) on the device? y=yes n=no",
        );
    }
}

impl AppView {
    /// What a key does while the choices of a parameter are open.
    pub open spec fn popup_key(self, key: KeyEvent) -> (AppView, ActionView) {
        match key.code {
            KeyCode::Char(c) => if c == 'q' {
                (self, ActionView::Quit)
            } else if c == '?' || c == 'm' {
                (self.closed(), ActionView::Continue)
            } else {
                (self, ActionView::Continue)
            },
            KeyCode::Esc => (self.closed(), ActionView::Continue),
            KeyCode::Enter => (self.closed(), ActionView::Continue),
            _ => (self, ActionView::Continue),
        }
    }

    /// With the choices of a parameter closed.
    pub open spec fn closed(self) -> AppView {
        AppView {
            mode: TuiMode::Browse,
            status_message: "Metadata popup closed"@,
            ..self
        }
    }

    /// What a key does while the question whether to reset all rows is open.
    pub open spec fn confirm_key(self, key: KeyEvent) -> (AppView, ActionView) {
        let cancelled = AppView {
            pending_writes: Seq::empty(),
            mode: TuiMode::Browse,
            status_message: "Default-all write cancelled"@,
            ..self
        };
        match key.code {
            KeyCode::Char(c) => if c == 'y' || c == 'Y' {
                (self, ActionView::WriteMany(self.pending_writes))
            } else if c == 'n' || c == 'N' {
                (cancelled, ActionView::Continue)
            } else {
                (self, ActionView::Continue)
            },
            KeyCode::Esc => (cancelled, ActionView::Continue),
            _ => (self, ActionView::Continue),
        }
    }

    /// With another search.
    pub open spec fn searching(self, query: Seq<char>) -> AppView {
        (AppView { query, ..self }).refiltered()
    }

    /// What a key does while a search is typed.
    pub open spec fn search_key(self, key: KeyEvent) -> (AppView, ActionView) {
        (
            match key.code {
                KeyCode::Esc => (AppView { mode: TuiMode::Browse, ..self }).searching(Seq::empty()),
                KeyCode::Enter => AppView { mode: TuiMode::Browse, ..self },
                KeyCode::Backspace => self.searching(without_last(self.query)),
                KeyCode::Char(c) => if c == 'u' && key.control {
                    self.searching(Seq::empty())
                } else {
                    self.searching(self.query.push(c))
                },
                _ => self,
            },
            ActionView::Continue,
        )
    }

    /// What a key does while a value is typed.
    pub open spec fn edit_key(self, key: KeyEvent) -> (AppView, ActionView) {
        match key.code {
            KeyCode::Esc => (
                AppView {
                    mode: TuiMode::Browse,
                    edit_value: Seq::empty(),
                    status_message: "Edit cancelled"@,
                    ..self
                },
                ActionView::Continue,
            ),
            KeyCode::Enter => match self.selected_row() {
                None => (self, ActionView::Continue),
                Some(row) => match write_value(trimmed(self.edit_value)) {
                    Ok(value) => (
                        self,
                        ActionView::Write(
                            WriteView {
                                name: row.name,
                                value,
                                mav_type: row.mav_type,
                                encoding: write_encoding(row.mav_type, self.write_encoding),
                                source: "TUI edit"@,
                            },
                        ),
                    ),
                    Err(e) => (
                        self.saying(
                            "Invalid value: "@ + write_value_text(e, trimmed(self.edit_value)),
                        ),
                        ActionView::Continue,
                    ),
                },
            },
            KeyCode::Backspace => (
                AppView { edit_value: without_last(self.edit_value), ..self },
                ActionView::Continue,
            ),
            KeyCode::Char(c) => (
                AppView {
                    edit_value: if c == 'u' && key.control {
                        Seq::empty()
                    } else {
                        self.edit_value.push(c)
                    },
                    ..self
                },
                ActionView::Continue,
            ),
            _ => (self, ActionView::Continue),
        }
    }

    /// With the choices of the selected parameter open, if it has any.
    pub open spec fn opened(self) -> AppView {
        if self.selected_row() is Some && has_choices(self.selected_row()->0) {
            AppView { mode: TuiMode::MetadataPopup, ..self }
        } else {
            self.saying("No enum, boolean, or bitmask metadata for selected parameter"@)
        }
    }

    /// With the last listed row selected.
    pub open spec fn at_bottom(self) -> AppView {
        if self.filtered.len() > 0 {
            AppView { selected: (self.filtered.len() - 1) as usize, ..self }
        } else {
            self
        }
    }

    /// What a character does while moving around.
    pub open spec fn browse_char(self, c: char, key: KeyEvent) -> (AppView, ActionView) {
        let plain = !key.control && !key.shift && !key.other;
        if c == 'q' {
            (self, ActionView::Quit)
        } else if c == '/' {
            (AppView { mode: TuiMode::Search, ..self }, ActionView::Continue)
        } else if c == '?' || c == 'm' {
            (self.opened(), ActionView::Continue)
        } else if c == 'f' && plain {
            (self.toggled(), ActionView::Continue)
        } else if c == 'e' {
            (self.editing(), ActionView::Continue)
        } else if c == 'd' && plain {
            let (next, write) = self.default_write();
            (
                next,
                match write {
                    Some(w) => ActionView::Write(w),
                    None => ActionView::Continue,
                },
            )
        } else if c == 'A' && !key.control && !key.other {
            (self.confirming(), ActionView::Continue)
        } else if c == 'g' {
            (AppView { selected: 0, ..self }, ActionView::Continue)
        } else if c == 'G' {
            (self.at_bottom(), ActionView::Continue)
        } else if c == 'j' {
            (self.moved_down(1), ActionView::Continue)
        } else if c == 'k' {
            (self.moved_up(1), ActionView::Continue)
        } else if c == 'd' && key.control {
            (self.moved_down(20), ActionView::Continue)
        } else if c == 'u' && key.control {
            (self.moved_up(20), ActionView::Continue)
        } else {
            (self, ActionView::Continue)
        }
    }

    /// What a key does while moving around.
    pub open spec fn browse_key(self, key: KeyEvent) -> (AppView, ActionView) {
        match key.code {
            KeyCode::Char(c) => self.browse_char(c, key),
            KeyCode::Enter => (self.editing(), ActionView::Continue),
            KeyCode::Down => (self.moved_down(1), ActionView::Continue),
            KeyCode::Up => (self.moved_up(1), ActionView::Continue),
            KeyCode::PageDown => (self.moved_down(20), ActionView::Continue),
            KeyCode::PageUp => (self.moved_up(20), ActionView::Continue),
            KeyCode::Esc => (self.searching(Seq::empty()), ActionView::Continue),
            _ => (self, ActionView::Continue),
        }
    }

    /// What a key does.
    pub open spec fn after_key(self, key: KeyEvent) -> (AppView, ActionView) {
        match self.mode {
            TuiMode::MetadataPopup => self.popup_key(key),
            TuiMode::ConfirmDefaults => self.confirm_key(key),
            TuiMode::Search => self.search_key(key),
            TuiMode::Edit => self.edit_key(key),
            TuiMode::Browse => self.browse_key(key),
        }
    }
}

fn popup_key(app: &mut TuiApp, key: KeyEvent) -> (r: TuiAction)
    ensures
        (final(app)@, r@) == old(app)@.popup_key(key),
{
    let close = match key.code {
        KeyCode::Char(c) => {
            if c == 'q' {
                return TuiAction::Quit;
            }
            c == '?' || c == 'm'
        },
        KeyCode::Esc => true,
        KeyCode::Enter => true,
        _ => false,
    };
    if close {
        app.mode = TuiMode::Browse;
        app.status_message = String::from_str("Metadata popup closed");
    }
    TuiAction::Continue
}

fn confirm_key(app: &mut TuiApp, key: KeyEvent) -> (r: TuiAction)
    ensures
        (final(app)@, r@) == old(app)@.confirm_key(key),
{
    let cancel = match key.code {
        KeyCode::Char(c) => {
            if c == 'y' || c == 'Y' {
                return TuiAction::WriteMany(copy_writes(&app.pending_writes));
            }
            c == 'n' || c == 'N'
        },
        KeyCode::Esc => true,
        _ => false,
    };
    if cancel {
        app.pending_writes = Vec::new();
        assert(app@.pending_writes =~= Seq::empty());
        app.mode = TuiMode::Browse;
        app.status_message = String::from_str("Default-all write cancelled");
    }
    TuiAction::Continue
}

fn search_key(app: &mut TuiApp, key: KeyEvent) -> (r: TuiAction)
    ensures
        (final(app)@, r@) == old(app)@.search_key(key),
{
    match key.code {
        KeyCode::Esc => {
            app.query = String::new();
            app.mode = TuiMode::Browse;
            app.apply_filter();
        },
        KeyCode::Enter => {
            app.mode = TuiMode::Browse;
        },
        KeyCode::Backspace => {
            app.query = drop_last_char(app.query.as_str());
            app.apply_filter();
        },
        KeyCode::Char(c) => {
            if c == 'u' && key.control {
                app.query = String::new();
            } else {
                app.query.push(c);
            }
            app.apply_filter();
        },
        _ => {},
    }
    TuiAction::Continue
}

fn edit_key(app: &mut TuiApp, key: KeyEvent) -> (r: TuiAction)
    ensures
        (final(app)@, r@) == old(app)@.edit_key(key),
{
    match key.code {
        KeyCode::Esc => {
            app.mode = TuiMode::Browse;
            app.edit_value = String::new();
            app.status_message = String::from_str("Edit cancelled");
        },
        KeyCode::Enter => {
            let typed = to_chars(app.edit_value.as_str());
            let typed = from_chars(trim(typed.as_slice()));
            let (name, mav_type) = match app.selected_row() {
                Some(row) => (row.name.clone(), row.mav_type),
                None => {
                    return TuiAction::Continue;
                },
            };
            match parse_write_value(typed.as_str()) {
                Ok(value) => {
                    return TuiAction::Write(
                        WriteRequest {
                            name,
                            value,
                            mav_type,
                            encoding: write_encoding_for_type(mav_type, app.write_encoding),
                            source: String::from_str("TUI edit"),
                        },
                    );
                },
                Err(e) => {
                    let why = write_value_message(e, typed.as_str());
                    let mut message = String::from_str("Invalid value: ");
                    message.append(why.as_str());
                    app.status_message = message;
                },
            }
        },
        KeyCode::Backspace => {
            app.edit_value = drop_last_char(app.edit_value.as_str());
        },
        KeyCode::Char(c) => {
            if c == 'u' && key.control {
                app.edit_value = String::new();
            } else {
                app.edit_value.push(c);
            }
        },
        _ => {},
    }
    TuiAction::Continue
}

fn open_choices(app: &mut TuiApp)
    ensures
        final(app)@ == old(app)@.opened(),
{
    let some = match app.selected_row() {
        Some(row) => row_has_metadata_choices(row),
        None => false,
    };
    if some {
        app.mode = TuiMode::MetadataPopup;
    } else {
        app.status_message = String::from_str(
            "No enum, boolean, or bitmask metadata for selected parameter",
        );
    }
}

fn browse_char(app: &mut TuiApp, c: char, key: KeyEvent) -> (r: TuiAction)
    ensures
        (final(app)@, r@) == old(app)@.browse_char(c, key),
{
    let plain = !key.control && !key.shift && !key.other;
    if c == 'q' {
        return TuiAction::Quit;
    }
    if c == '/' {
        app.mode = TuiMode::Search;
    } else if c == '?' || c == 'm' {
        open_choices(app);
    } else if c == 'f' && plain {
        app.toggle_diffs_only();
    } else if c == 'e' {
        app.start_edit();
    } else if c == 'd' && plain {
        if let Some(write) = app.selected_default_write() {
            return TuiAction::Write(write);
        }
    } else if c == 'A' && !key.control && !key.other {
        app.start_default_all_confirmation();
    } else if c == 'g' {
        app.selected = 0;
    } else if c == 'G' {
        if app.filtered.len() > 0 {
            app.selected = app.filtered.len() - 1;
        }
    } else if c == 'j' {
        app.move_down(1);
    } else if c == 'k' {
        app.move_up(1);
    } else if c == 'd' && key.control {
        app.move_down(20);
    } else if c == 'u' && key.control {
        app.move_up(20);
    }
    TuiAction::Continue
}

fn browse_key(app: &mut TuiApp, key: KeyEvent) -> (r: TuiAction)
    ensures
        (final(app)@, r@) == old(app)@.browse_key(key),
{
    match key.code {
        KeyCode::Char(c) => {
            return browse_char(app, c, key);
        },
        KeyCode::Enter => app.start_edit(),
        KeyCode::Down => app.move_down(1),
        KeyCode::Up => app.move_up(1),
        KeyCode::PageDown => app.move_down(20),
        KeyCode::PageUp => app.move_up(20),
        KeyCode::Esc => {
            app.query = String::new();
            app.apply_filter();
        },
        _ => {},
    }
    TuiAction::Continue
}

/// Takes a key, and gives what it asks for.
pub fn handle_key(app: &mut TuiApp, key: KeyEvent) -> (r: TuiAction)
    ensures
        (final(app)@, r@) == old(app)@.after_key(key),
{
    match app.mode {
        TuiMode::MetadataPopup => popup_key(app, key),
        TuiMode::ConfirmDefaults => confirm_key(app, key),
        TuiMode::Search => search_key(app, key),
        TuiMode::Edit => edit_key(app, key),
        TuiMode::Browse => browse_key(app, key),
    }
}

} // verus!
