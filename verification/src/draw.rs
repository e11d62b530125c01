//! The picture of the terminal interface, and the plain table of an audit.

use vstd::prelude::*;

use crate::audit::{display_status, status_text};
use crate::model::{AuditRow, RowView};
use crate::numeral::{decimal, decimal_text};
use crate::screen::{
    baseline_context_line, bold, colored, context_line, detail_lines, lines_view,
    metadata_popup_lines, plain_line, popup_lines, selected_detail_lines, source_style,
    status_style_for_row, style_of_row, style_of_source, Color, Line, Span, SpanView, Style,
};
use crate::text::{same_str, texts};
use crate::tui::{AppView, TuiApp, TuiMode};

verus! {

/// A row of the table of parameters.
#[derive(Debug)]
pub struct TableRow {
    /// The name of the parameter.
    pub name: String,
    /// The value of the device.
    pub current: String,
    /// The value of the baseline.
    pub baseline: String,
    /// Where the baseline comes from.
    pub source: String,
    /// How the two compare.
    pub status: String,
    /// The style of the source.
    pub source_style: Style,
    /// The style of the status.
    pub status_style: Style,
}

/// The view of a row of the table.
pub struct TableRowView {
    /// The name of the parameter.
    pub name: Seq<char>,
    /// The value of the device.
    pub current: Seq<char>,
    /// The value of the baseline.
    pub baseline: Seq<char>,
    /// Where the baseline comes from.
    pub source: Seq<char>,
    /// How the two compare.
    pub status: Seq<char>,
    /// The style of the source.
    pub source_style: Style,
    /// The style of the status.
    pub status_style: Style,
}

impl View for TableRow {
    type V = TableRowView;

    open spec fn view(&self) -> TableRowView {
        TableRowView {
            name: self.name@,
            current: self.current@,
            baseline: self.baseline@,
            source: self.source@,
            status: self.status@,
            source_style: self.source_style,
            status_style: self.status_style,
        }
    }
}

/// The views of table rows.
pub open spec fn table_view(v: Seq<TableRow>) -> Seq<TableRowView> {
    Seq::new(v.len(), |i: int| v[i]@)
}

/// The window over the table.
#[derive(Debug)]
pub struct Popup {
    /// Its title.
    pub title: String,
    /// Its lines.
    pub lines: Vec<Line>,
}

/// The view of the window.
pub struct PopupView {
    /// Its title.
    pub title: Seq<char>,
    /// Its lines.
    pub lines: Seq<Seq<SpanView>>,
}

/// The view of an optional window.
pub open spec fn popup_view(p: Option<Popup>) -> Option<PopupView> {
    match p {
        Some(x) => Some(PopupView { title: x.title@, lines: lines_view(x.lines@) }),
        None => None,
    }
}

/// What the terminal shows.
#[derive(Debug)]
pub struct Screen {
    /// The height of the panel on the baseline.
    pub context_height: u16,
    /// The height of the panel on the selected row.
    pub status_height: u16,
    /// The title of the input.
    pub input_title: String,
    /// The input.
    pub input_value: String,
    /// The style of the input.
    pub input_style: Style,
    /// The lines on the baseline.
    pub context: Vec<Line>,
    /// The title of the table.
    pub title: String,
    /// The rows of the table.
    pub rows: Vec<TableRow>,
    /// Which row of the table is selected.
    pub selected: Option<usize>,
    /// The lines on the selected row.
    pub detail: Vec<Line>,
    /// The window over the table, if it is open.
    pub popup: Option<Popup>,
}

/// The view of what the terminal shows.
pub struct ScreenView {
    /// The height of the panel on the baseline.
    pub context_height: u16,
    /// The height of the panel on the selected row.
    pub status_height: u16,
    /// The title of the input.
    pub input_title: Seq<char>,
    /// The input.
    pub input_value: Seq<char>,
    /// The style of the input.
    pub input_style: Style,
    /// The lines on the baseline.
    pub context: Seq<Seq<SpanView>>,
    /// The title of the table.
    pub title: Seq<char>,
    /// The rows of the table.
    pub rows: Seq<TableRowView>,
    /// Which row of the table is selected.
    pub selected: Option<usize>,
    /// The lines on the selected row.
    pub detail: Seq<Seq<SpanView>>,
    /// The window over the table, if it is open.
    pub popup: Option<PopupView>,
}

impl View for Screen {
    type V = ScreenView;

    open spec fn view(&self) -> ScreenView {
        ScreenView {
            context_height: self.context_height,
            status_height: self.status_height,
            input_title: self.input_title@,
            input_value: self.input_value@,
            input_style: self.input_style,
            context: lines_view(self.context@),
            title: self.title@,
            rows: table_view(self.rows@),
            selected: self.selected,
            detail: lines_view(self.detail@),
            popup: popup_view(self.popup),
        }
    }
}

/// The height of a panel on so many lines.
pub open spec fn panel_height(lines: nat) -> u16 {
    if lines >= 6 {
        10
    } else if lines <= 1 {
        3
    } else if lines >= 4 {
        6
    } else {
        (lines + 2) as u16
    }
}

/// The title of the input.
pub open spec fn title_of(mode: TuiMode) -> Seq<char> {
    match mode {
        TuiMode::Browse =>
        "Search (/), Toggle diffs/all (f), Edit (e/Enter), Default selected (d), Default all (A)"@,
        TuiMode::Search => "Search (Enter done, Esc clear)"@,
        TuiMode::Edit => "Edit value (Enter writes, Esc cancels)"@,
        TuiMode::ConfirmDefaults => "Reset all numeric diffs to PX4 baseline? y/n"@,
        TuiMode::MetadataPopup => "Metadata choices (Enter/Esc closes)"@,
    }
}

/// The style of the input.
pub open spec fn style_of_mode(mode: TuiMode) -> Style {
    match mode {
        TuiMode::Browse => colored(Color::Plain),
        TuiMode::Search => colored(Color::Yellow),
        TuiMode::Edit => colored(Color::Cyan),
        TuiMode::ConfirmDefaults => bold(Color::Red),
        TuiMode::MetadataPopup => colored(Color::Green),
    }
}

/// The input.
pub open spec fn input_of(app: AppView) -> Seq<char> {
    match app.mode {
        TuiMode::Edit => app.edit_value,
        TuiMode::ConfirmDefaults =>
        "WARNING: all numeric non-default values will be reset on the device"@,
        TuiMode::MetadataPopup => "Enum/bitmask metadata popup is open"@,
        _ => app.query,
    }
}

/// The row of the table for a row of the audit.
pub open spec fn table_row(row: RowView) -> TableRowView {
    TableRowView {
        name: row.name,
        current: row.current,
        baseline: row.baseline,
        source: row.source,
        status: status_text(row),
        source_style: style_of_source(row),
        status_style: style_of_row(row),
    }
}

/// The rows of the table: those that are listed.
pub open spec fn table_rows(rows: Seq<RowView>, filtered: Seq<usize>) -> Seq<TableRowView>
    decreases filtered.len(),
{
    if filtered.len() == 0 {
        Seq::empty()
    } else {
        let before = table_rows(rows, filtered.drop_last());
        if filtered.last() < rows.len() {
            before.push(table_row(rows[filtered.last() as int]))
        } else {
            before
        }
    }
}

/// The lines on the baseline.
pub open spec fn context_lines_of(lines: Seq<Seq<char>>) -> Seq<Seq<SpanView>> {
    Seq::new(lines.len(), |i: int| context_line(lines[i]))
}

/// What the terminal shows.
pub open spec fn screen_of(app: AppView) -> ScreenView {
    ScreenView {
        context_height: panel_height(app.context_lines.len()),
        status_height: if app.context_lines.len() >= 6 {
            5
        } else {
            8
        },
        input_title: title_of(app.mode),
        input_value: input_of(app),
        input_style: style_of_mode(app.mode),
        context: context_lines_of(app.context_lines),
        title: "PX4 Params - "@ + (if app.show_diffs_only {
            "diffs only"@
        } else {
            "all params"@
        }) + " - "@ + decimal(app.filtered.len()) + " of "@ + decimal(app.rows.len()) + " shown"@,
        rows: table_rows(app.rows, app.filtered),
        selected: if app.filtered.len() > 0 {
            Some(app.selected)
        } else {
            None
        },
        detail: match app.selected_row() {
            Some(row) => detail_lines(row, app.status_message),
            None => seq![
                plain_line("No matching parameters"@),
                plain_line(app.status_message),
                plain_line("Keys: q quit | f diffs/all | / search | Esc clear search"@),
            ],
        },
        popup: match app.selected_row() {
            Some(row) => if app.mode == TuiMode::MetadataPopup {
                Some(
                    PopupView {
                        title: row.name + " metadata - ?/Enter/Esc close"@,
                        lines: popup_lines(row),
                    },
                )
            } else {
                None
            },
            None => None,
        },
    }
}

fn height_of(lines: usize) -> (r: u16)
    ensures
        r == panel_height(lines as nat),
{
    if lines >= 6 {
        10
    } else if lines <= 1 {
        3
    } else if lines >= 4 {
        6
    } else {
        lines as u16 + 2
    }
}

fn mode_title(mode: TuiMode) -> (r: String)
    ensures
        r@ == title_of(mode),
{
    String::from_str(
        match mode {
            TuiMode::Browse =>
            "Search (/), Toggle diffs/all (f), Edit (e/Enter), Default selected (d), Default all (A)",
            TuiMode::Search => "Search (Enter done, Esc clear)",
            TuiMode::Edit => "Edit value (Enter writes, Esc cancels)",
            TuiMode::ConfirmDefaults => "Reset all numeric diffs to PX4 baseline? y/n",
            TuiMode::MetadataPopup => "Metadata choices (Enter/Esc closes)",
        },
    )
}

fn mode_style(mode: TuiMode) -> (r: Style)
    ensures
        r == style_of_mode(mode),
{
    match mode {
        TuiMode::Browse => Style { color: Color::Plain, bold: false },
        TuiMode::Search => Style { color: Color::Yellow, bold: false },
        TuiMode::Edit => Style { color: Color::Cyan, bold: false },
        TuiMode::ConfirmDefaults => Style { color: Color::Red, bold: true },
        TuiMode::MetadataPopup => Style { color: Color::Green, bold: false },
    }
}

fn input_text(app: &TuiApp) -> (r: String)
    ensures
        r@ == input_of(app@),
{
    match app.mode {
        TuiMode::Edit => app.edit_value.clone(),
        TuiMode::ConfirmDefaults => String::from_str(
            "WARNING: all numeric non-default values will be reset on the device",
        ),
        TuiMode::MetadataPopup => String::from_str("Enum/bitmask metadata popup is open"),
        _ => app.query.clone(),
    }
}

fn row_cells(row: &AuditRow) -> (r: TableRow)
    ensures
        r@ == table_row(row@),
{
    TableRow {
        name: row.name.clone(),
        current: row.current.clone(),
        baseline: row.baseline.clone(),
        source: row.source.clone(),
        status: display_status(row),
        source_style: source_style(row),
        status_style: status_style_for_row(row),
    }
}

fn listed_rows(app: &TuiApp) -> (r: Vec<TableRow>)
    ensures
        table_view(r@) == table_rows(app@.rows, app@.filtered),
{
    let ghost all = app.filtered@;
    let mut out: Vec<TableRow> = Vec::new();
    assert(table_view(out@) =~= Seq::empty());
    for i in 0..app.filtered.len()
        invariant
            all == app.filtered@,
            table_view(out@) == table_rows(app@.rows, all.take(i as int)),
    {
        proof {
            assert(all.take(i + 1).drop_last() =~= all.take(i as int));
            assert(all.take(i + 1).last() == all[i as int]);
        }
        let index: usize = app.filtered[i];
        if index < app.rows.len() {
            let ghost before = out@;
            let row = row_cells(&app.rows[index]);
            let ghost view = row@;
            out.push(row);
            assert(app@.rows[index as int] == app.rows@[index as int]@);
            assert(table_view(out@) =~= table_view(before).push(view));
        }
    }
    assert(all.take(all.len() as int) =~= all);
    out
}

fn styled_context(lines: &Vec<String>) -> (r: Vec<Line>)
    ensures
        lines_view(r@) == context_lines_of(texts(lines@)),
{
    let mut out: Vec<Line> = Vec::new();
    for i in 0..lines.len()
        invariant
            out@.len() == i,
            forall|k: int| 0 <= k < i ==> (#[trigger] out@[k])@ == context_line(lines@[k]@),
    {
        let ghost before = out@;
        out.push(baseline_context_line(lines[i].as_str()));
        assert forall|k: int| 0 <= k < i + 1 implies (#[trigger] out@[k])@ == context_line(
            lines@[k]@,
        ) by {
            if k < i {
                assert(out@[k] == before[k]);
            }
        }
    }
    assert(lines_view(out@) =~= context_lines_of(texts(lines@)));
    out
}

fn text_line(text: &str) -> (r: Line)
    ensures
        r@ == plain_line(text@),
{
    let mut spans: Vec<Span> = Vec::new();
    spans.push(
        Span { text: String::from_str(text), style: Style { color: Color::Plain, bold: false } },
    );
    let r = Line { spans };
    assert(r@ =~= plain_line(text@));
    r
}

fn no_row_lines(message: &str) -> (r: Vec<Line>)
    ensures
        lines_view(r@) == seq![
            plain_line("No matching parameters"@),
            plain_line(message@),
            plain_line("Keys: q quit | f diffs/all | / search | Esc clear search"@),
        ],
{
    let mut out: Vec<Line> = Vec::new();
    out.push(text_line("No matching parameters"));
    out.push(text_line(message));
    out.push(text_line("Keys: q quit | f diffs/all | / search | Esc clear search"));
    assert(lines_view(out@) =~= seq![
        plain_line("No matching parameters"@),
        plain_line(message@),
        plain_line("Keys: q quit | f diffs/all | / search | Esc clear search"@),
    ]);
    out
}

/// Draws the state of the interface.
pub fn draw_tui(app: &TuiApp) -> (r: Screen)
    ensures
        r@ == screen_of(app@),
{
    let mut title = String::from_str("PX4 Params - ");
    title.append(app.view_label());
    title.append(" - ");
    let n = decimal_text(app.filtered.len() as u128);
    title.append(n.as_str());
    title.append(" of ");
    let n = decimal_text(app.rows.len() as u128);
    title.append(n.as_str());
    title.append(" shown");
    let selected_row = app.selected_row();
    let detail = match selected_row {
        Some(row) => selected_detail_lines(row, app.status_message.as_str()),
        None => no_row_lines(app.status_message.as_str()),
    };
    let popup = match selected_row {
        Some(row) => if app.mode == TuiMode::MetadataPopup {
            let mut title = row.name.clone();
            title.append(" metadata - ?/Enter/Esc close");
            Some(Popup { title, lines: metadata_popup_lines(row) })
        } else {
            None
        },
        None => None,
    };
    let height = height_of(app.context_lines.len());
    Screen {
        context_height: height,
        status_height: if height >= 10 {
            5
        } else {
            8
        },
        input_title: mode_title(app.mode),
        input_value: input_text(app),
        input_style: mode_style(app.mode),
        context: styled_context(&app.context_lines),
        title,
        rows: listed_rows(app),
        selected: if app.filtered.len() > 0 {
            Some(app.selected)
        } else {
            None
        },
        detail,
        popup,
    }
}

/// The percentages before, of and behind a part in the middle.
pub open spec fn centered(percent: u16) -> (int, int, int) {
    ((100 - percent) / 2, percent as int, (100 - percent) / 2)
}

/// The percentages before, of and behind a part in the middle.
pub fn centered_parts(percent: u16) -> (r: (u16, u16, u16))
    requires
        percent <= 100,
    ensures
        (r.0 as int, r.1 as int, r.2 as int) == centered(percent),
{
    ((100 - percent) / 2, percent, (100 - percent) / 2)
}

/// The colour of a status in the plain table.
pub open spec fn plain_color(status: Seq<char>) -> Color {
    if status == "match"@ {
        Color::Green
    } else if status == "diff"@ || status == "fallback match"@ || status == "fallback diff"@ {
        Color::Red
    } else if status == "unknown"@ {
        Color::DarkGray
    } else {
        Color::White
    }
}

/// The row of the plain table for a row of the audit.
pub open spec fn plain_row(row: RowView) -> TableRowView {
    TableRowView {
        name: row.name,
        current: row.current,
        baseline: row.baseline,
        source: row.source,
        status: status_text(row),
        source_style: colored(Color::Plain),
        status_style: colored(plain_color(status_text(row))),
    }
}

fn status_color(status: &str) -> (r: Color)
    ensures
        r == plain_color(status@),
{
    if same_str(status, "match") {
        Color::Green
    } else if same_str(status, "diff") || same_str(status, "fallback match") || same_str(
        status,
        "fallback diff",
    ) {
        Color::Red
    } else if same_str(status, "unknown") {
        Color::DarkGray
    } else {
        Color::White
    }
}

/// The rows of the plain table of an audit.
pub fn audit_table(rows: &[AuditRow]) -> (r: Vec<TableRow>)
    ensures
        table_view(r@) == Seq::new(rows@.len(), |i: int| plain_row(rows@[i]@)),
{
    let mut out: Vec<TableRow> = Vec::new();
    for i in 0..rows.len()
        invariant
            out@.len() == i,
            forall|k: int| 0 <= k < i ==> (#[trigger] out@[k])@ == plain_row(rows@[k]@),
    {
        let ghost before = out@;
        let row = &rows[i];
        let status = display_status(row);
        let color = status_color(status.as_str());
        out.push(
            TableRow {
                name: row.name.clone(),
                current: row.current.clone(),
                baseline: row.baseline.clone(),
                source: row.source.clone(),
                status,
                source_style: Style { color: Color::Plain, bold: false },
                status_style: Style { color, bold: false },
            },
        );
        assert forall|k: int| 0 <= k < i + 1 implies (#[trigger] out@[k])@ == plain_row(
            rows@[k]@,
        ) by {
            if k < i {
                assert(out@[k] == before[k]);
            }
        }
    }
    assert(table_view(out@) =~= Seq::new(rows@.len(), |i: int| plain_row(rows@[i]@)));
    out
}

/// In a consistent state the table has one row for each listed parameter.
pub proof fn law_table_lists_all(rows: Seq<RowView>, filtered: Seq<usize>)
    requires
        forall|i: int| 0 <= i < filtered.len() ==> #[trigger] filtered[i] < rows.len(),
    ensures
        table_rows(rows, filtered).len() == filtered.len(),
        forall|i: int|
            0 <= i < filtered.len() ==> #[trigger] table_rows(rows, filtered)[i] == table_row(
                rows[filtered[i] as int],
            ),
    decreases filtered.len(),
{
    if filtered.len() > 0 {
        let rest = filtered.drop_last();
        assert forall|i: int| 0 <= i < rest.len() implies #[trigger] rest[i] < rows.len() by {
            assert(rest[i] == filtered[i]);
        }
        law_table_lists_all(rows, rest);
        assert(filtered[filtered.len() - 1] < rows.len());
        assert forall|i: int| 0 <= i < filtered.len() implies #[trigger] table_rows(
            rows,
            filtered,
        )[i] == table_row(rows[filtered[i] as int]) by {
            if i < rest.len() {
                assert(table_rows(rows, filtered)[i] == table_rows(rows, rest)[i]);
                assert(rest[i] == filtered[i]);
            }
        }
    }
}

} // verus!
