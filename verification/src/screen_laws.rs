//! What the terminal shows of an audit: every cell is that of its own row and column.

use vstd::prelude::*;

use crate::detail::{
    active_bits, choice_list, choice_text, choices_line, compacted, current_line, has_choices,
    label_of, summary_line, summary_parts,
};
use crate::draw::{
    audit_table, centered, draw_tui, law_table_lists_all, plain_row, screen_of, table_row,
    table_view, Screen, TableRow,
};
use crate::model::{AuditRow, ChoiceView, MetadataView, ParamMetadata, RowView, WriteRequest};
use crate::numeral::{decimal, decimal_int};
use crate::param::{bit_set, integral_of};
use crate::screen::{
    choice_lines, context_line, detail_lines, popup_lines, style_of_row, style_of_source, Color,
    Style,
};
use crate::text::{contains_text, joined, opt_text};
use crate::tui::{AppView, TuiApp, TuiMode};

verus! {

/// A row of the table shows the name, the device value, the baseline and the source of its own
/// row of the audit, each in its column, and the status, which is marked for a fallback.
pub proof fn law_cells_are_of_their_row(row: RowView)
    ensures
        ({
            let cells = table_row(row);
            &&& cells.name == row.name
            &&& cells.current == row.current
            &&& cells.baseline == row.baseline
            &&& cells.source == row.source
            &&& !row.baseline_fallback ==> cells.status == row.status
            &&& row.baseline_fallback && row.status != "unknown"@ ==> cells.status == "fallback "@
                + row.status
            &&& row.status == "unknown"@ ==> cells.status == "unknown"@
            &&& cells.source_style == style_of_source(row)
            &&& cells.status_style == style_of_row(row)
        }),
        ({
            let cells = plain_row(row);
            &&& cells.name == row.name
            &&& cells.current == row.current
            &&& cells.baseline == row.baseline
            &&& cells.source == row.source
            &&& cells.status == table_row(row).status
        }),
{
}

/// The drawn table lists the rows that the interface lists, in their order: for every listed
/// index, each cell is that of the row with that index.
pub proof fn law_screen_lists_the_rows(app: AppView, i: int)
    requires
        forall|k: int| 0 <= k < app.filtered.len() ==> #[trigger] app.filtered[k] < app.rows.len(),
        0 <= i < app.filtered.len(),
    ensures
        ({
            let shown = screen_of(app).rows;
            let row = app.rows[app.filtered[i] as int];
            &&& shown.len() == app.filtered.len()
            &&& shown[i].name == row.name
            &&& shown[i].current == row.current
            &&& shown[i].baseline == row.baseline
            &&& shown[i].source == row.source
            &&& !row.baseline_fallback ==> shown[i].status == row.status
            &&& row.baseline_fallback && row.status != "unknown"@ ==> shown[i].status
                == "fallback "@ + row.status
        }),
{
    law_table_lists_all(app.rows, app.filtered);
    law_cells_are_of_their_row(app.rows[app.filtered[i] as int]);
}

/// The screen shows what is typed, the lines on the baseline, the selected index, and how many
/// rows are listed of how many.
pub proof fn law_screen_shows_the_state(app: AppView)
    ensures
        app.mode == TuiMode::Search || app.mode == TuiMode::Browse ==> screen_of(app).input_value
            == app.query,
        app.mode == TuiMode::Edit ==> screen_of(app).input_value == app.edit_value,
        app.filtered.len() > 0 ==> screen_of(app).selected == Some(app.selected),
        app.filtered.len() == 0 ==> screen_of(app).selected is None,
        screen_of(app).context.len() == app.context_lines.len(),
        forall|i: int|
            0 <= i < app.context_lines.len() ==> (#[trigger] screen_of(app).context[i]).len() == 1
                && screen_of(app).context[i][0].text == app.context_lines[i],
        app.show_diffs_only ==> screen_of(app).title == "PX4 Params - "@ + "diffs only"@ + " - "@
            + decimal(app.filtered.len()) + " of "@ + decimal(app.rows.len()) + " shown"@,
        !app.show_diffs_only ==> screen_of(app).title == "PX4 Params - "@ + "all params"@ + " - "@
            + decimal(app.filtered.len()) + " of "@ + decimal(app.rows.len()) + " shown"@,
        app.mode == TuiMode::ConfirmDefaults ==> screen_of(app).input_style == (Style {
            color: Color::Red,
            bold: true,
        }),
        screen_of(app).context_height >= 3,
        app.context_lines.len() <= 4 ==> screen_of(app).context_height >= app.context_lines.len()
            + 2,
{
}

/// The panel below the table tells of the selected row, and of no other; the popup is open in its
/// mode alone, and tells of the selected row too.
pub proof fn law_panels_tell_of_the_selected_row(app: AppView, row: RowView)
    requires
        app.selected < app.filtered.len(),
        app.filtered[app.selected as int] < app.rows.len(),
        row == app.rows[app.filtered[app.selected as int] as int],
    ensures
        screen_of(app).detail == detail_lines(row, app.status_message),
        screen_of(app).detail.len() >= 3,
        screen_of(app).detail[0][1].text == row.name,
        screen_of(app).detail[0][3].text == table_row(row).status,
        screen_of(app).detail[screen_of(app).detail.len() - 2][0].text == app.status_message,
        screen_of(app).popup is Some <==> app.mode == TuiMode::MetadataPopup,
        app.mode == TuiMode::MetadataPopup ==> (screen_of(app).popup->0).title == row.name
            + " metadata - ?/Enter/Esc close"@,
        app.mode == TuiMode::MetadataPopup ==> (screen_of(app).popup->0).lines == popup_lines(row),
{
}

/// Without a selected row, nothing is told of any, and no popup is open.
pub proof fn law_nothing_selected(app: AppView)
    requires
        app.filtered.len() == 0,
    ensures
        screen_of(app).popup is None,
        screen_of(app).rows.len() == 0,
        screen_of(app).detail.len() == 3,
        screen_of(app).detail[1][0].text == app.status_message,
{
}

/// A row that matches is green, one that differs red, an unknown one gray; a fallback is bold and
/// red, in its status and in its source.
pub proof fn law_colors(row: RowView)
    ensures
        row.baseline_fallback ==> style_of_source(row) == (Style {
            color: Color::Red,
            bold: true,
        }),
        !row.baseline_fallback ==> style_of_source(row) == (Style {
            color: Color::Plain,
            bold: false,
        }),
        row.baseline_fallback && (row.status == "match"@ || row.status == "diff"@) ==> style_of_row(
            row,
        ) == (Style { color: Color::Red, bold: true }),
        !row.baseline_fallback && row.status == "match"@ ==> style_of_row(row) == (Style {
            color: Color::Green,
            bold: false,
        }),
        !row.baseline_fallback && row.status == "diff"@ ==> style_of_row(row) == (Style {
            color: Color::Red,
            bold: false,
        }),
        row.status == "unknown"@ ==> style_of_row(row) == (Style {
            color: Color::DarkGray,
            bold: false,
        }),
        plain_row(row).status == "match"@ ==> plain_row(row).status_style.color == Color::Green,
        plain_row(row).status == "diff"@ ==> plain_row(row).status_style.color == Color::Red,
        plain_row(row).status == "fallback diff"@ ==> plain_row(row).status_style.color
            == Color::Red,
        plain_row(row).status == "fallback match"@ ==> plain_row(row).status_style.color
            == Color::Red,
        plain_row(row).status == "unknown"@ ==> plain_row(row).status_style.color
            == Color::DarkGray,
{
    reveal_strlit("unknown");
    reveal_strlit("match");
    reveal_strlit("diff");
    reveal_strlit("fallback diff");
    reveal_strlit("fallback match");
    assert("unknown"@.len() == 7 && "match"@.len() == 5 && "diff"@.len() == 4);
    assert("fallback diff"@.len() == 13 && "fallback match"@.len() == 14);
}

/// A line on the baseline is green where versions match, bold and red where they do not, and gray
/// where they are unknown.
pub proof fn law_context_colors(line: Seq<char>)
    ensures
        context_line(line).len() == 1,
        context_line(line)[0].text == line,
        contains_text(line, "status=match"@) ==> context_line(line)[0].style.color == Color::Green,
        !contains_text(line, "status=match"@) && contains_text(line, "status=mismatch"@)
            ==> context_line(line)[0].style == (Style { color: Color::Red, bold: true }),
        !contains_text(line, "status=match"@) && !contains_text(line, "status=mismatch"@)
            && contains_text(line, "status=unknown"@) ==> context_line(line)[0].style.color
            == Color::DarkGray,
{
}

/// The popup shows the row's device value and its baseline, each behind its own word.
pub proof fn law_popup_shows_both_values(row: RowView)
    requires
        row.metadata is Some,
    ensures
        popup_lines(row)[0].len() == 5,
        popup_lines(row)[0][0].text == "Current: "@,
        popup_lines(row)[0][1].text == row.current,
        popup_lines(row)[0][3].text == "Baseline: "@,
        popup_lines(row)[0][4].text == row.baseline,
{
}

/// The popup lists every bit, in the order of the metadata, with its number and its label, and
/// marks those that are set in the device's value.
pub proof fn law_popup_lists_bits(m: MetadataView, current: Seq<char>, value: i64, i: int)
    requires
        m.bits.len() > 0,
        integral_of(current) == Some(value),
        0 <= i < m.bits.len(),
    ensures
        choice_lines(m, current).len() == m.bits.len() + 1,
        ({
            let line = choice_lines(m, current)[i + 1];
            &&& line.len() == 3
            &&& line[0].text == if bit_set(value, m.bits[i].value) {
                "  * "@
            } else {
                "    "@
            }
            &&& line[1].text == decimal_int(m.bits[i].value as int) + ": "@
            &&& line[2].text == m.bits[i].label
            &&& line[2].style.bold == bit_set(value, m.bits[i].value)
        }),
{
}

/// The popup lists every value, in the order of the metadata, with its number and its label, and
/// marks the one that the device has.
pub proof fn law_popup_lists_values(m: MetadataView, current: Seq<char>, value: i64, i: int)
    requires
        m.bits.len() == 0,
        integral_of(current) == Some(value),
        0 <= i < m.values.len(),
    ensures
        choice_lines(m, current).len() == m.values.len() + 1,
        ({
            let line = choice_lines(m, current)[i + 1];
            &&& line.len() == 3
            &&& line[0].text == if value == m.values[i].value {
                "  * "@
            } else {
                "    "@
            }
            &&& line[1].text == decimal_int(m.values[i].value as int) + ": "@
            &&& line[2].text == m.values[i].label
            &&& line[2].style.bold == (value == m.values[i].value)
        }),
{
}

/// The popup of a boolean parameter lists 0 as disabled and 1 as enabled, and marks the one that
/// the device has.
pub proof fn law_popup_of_booleans(m: MetadataView, current: Seq<char>, value: i64)
    requires
        m.bits.len() == 0,
        m.values.len() == 0,
        m.param_type == Some("boolean"@),
        integral_of(current) == Some(value),
    ensures
        choice_lines(m, current).len() == 3,
        choice_lines(m, current)[1][1].text == decimal_int(0) + ": "@,
        choice_lines(m, current)[1][2].text == "Disabled"@,
        choice_lines(m, current)[1][2].style.bold == (value == 0),
        choice_lines(m, current)[2][1].text == decimal_int(1) + ": "@,
        choice_lines(m, current)[2][2].text == "Enabled"@,
        choice_lines(m, current)[2][2].style.bold == (value != 0),
{
}

/// The popup can be opened where the metadata has bits, values or a boolean type.
pub proof fn law_choices_open_the_popup(row: RowView)
    ensures
        has_choices(row) <==> row.metadata is Some && ((row.metadata->0).bits.len() > 0 || (
        row.metadata->0).values.len() > 0 || (row.metadata->0).param_type == Some("boolean"@)),
{
}

/// The summary of metadata gives the type, the range from the least to the greatest value, the
/// unit, the decimals and whether a reboot is required, as far as they are known.
pub proof fn law_summary_parts(m: MetadataView)
    ensures
        m.param_type matches Some(t) ==> summary_parts(m).len() > 0 && summary_parts(m)[0] == t,
        m.param_type is None && m.min is Some && m.max is Some ==> summary_parts(m)[0] == "range "@
            + m.min->0 + ".."@ + m.max->0,
        m.param_type is Some && m.min is Some && m.max is Some ==> summary_parts(m)[1] == "range "@
            + m.min->0 + ".."@ + m.max->0,
        m.min is Some && m.max is None ==> summary_parts(m).contains("min "@ + m.min->0),
        m.min is None && m.max is Some ==> summary_parts(m).contains("max "@ + m.max->0),
        m.unit is Some ==> summary_parts(m).contains("unit "@ + m.unit->0),
        m.decimal is Some ==> summary_parts(m).contains("decimal "@ + m.decimal->0),
        m.reboot_required ==> summary_parts(m).len() > 0 && summary_parts(m).last()
            == "reboot required"@,
        summary_parts(m).len() == (if m.param_type is Some {
            1int
        } else {
            0
        }) + (if m.min is Some || m.max is Some {
            1int
        } else {
            0
        }) + (if m.unit is Some {
            1int
        } else {
            0
        }) + (if m.decimal is Some {
            1int
        } else {
            0
        }) + (if m.reboot_required {
            1int
        } else {
            0
        }),
        summary_line(m) is Some <==> summary_parts(m).len() > 0,
        summary_line(m) matches Some(line) ==> line == "PX4 metadata: "@ + joined(
            summary_parts(m),
            " | "@,
        ),
{
    let parts = summary_parts(m);
    let at = |t: bool, r: bool, u: bool| {
        (if t {
            1int
        } else {
            0
        }) + (if r {
            1int
        } else {
            0
        }) + (if u {
            1int
        } else {
            0
        })
    };
    let t = m.param_type is Some;
    let r = m.min is Some || m.max is Some;
    if m.min is Some && m.max is None {
        assert(parts[at(t, false, false)] == "min "@ + m.min->0);
    }
    if m.min is None && m.max is Some {
        assert(parts[at(t, false, false)] == "max "@ + m.max->0);
    }
    if m.unit is Some {
        assert(parts[at(t, r, false)] == "unit "@ + m.unit->0);
    }
    if m.decimal is Some {
        assert(parts[at(t, r, m.unit is Some)] == "decimal "@ + m.decimal->0);
    }
}

/// The line on the device's value names the label of the value that it is, the first where several
/// have it, and says where none has.
pub proof fn law_current_value_is_named(
    m: MetadataView,
    current: Seq<char>,
    value: i64,
    i: int,
)
    requires
        m.bits.len() == 0,
        integral_of(current) == Some(value),
        0 <= i < m.values.len(),
        m.values[i].value == value,
        forall|k: int| 0 <= k < i ==> (#[trigger] m.values[k]).value != value,
    ensures
        current_line(current, m) == Some(
            "Current meaning: "@ + decimal_int(value as int) + " = "@ + m.values[i].label,
        ),
{
    lemma_label(m.values, value, i);
}

proof fn lemma_label(cs: Seq<ChoiceView>, value: i64, i: int)
    requires
        0 <= i < cs.len(),
        cs[i].value == value,
        forall|k: int| 0 <= k < i ==> (#[trigger] cs[k]).value != value,
    ensures
        label_of(cs, value) == cs[i].label,
    decreases cs.len(),
{
    if i > 0 {
        assert(cs[0].value != value);
        let rest = cs.drop_first();
        assert forall|k: int| 0 <= k < i - 1 implies (#[trigger] rest[k]).value != value by {
            assert(cs[k + 1].value != value);
        }
        lemma_label(rest, value, i - 1);
    }
}

/// The active bits are those choices whose bit is set, in their order.
pub proof fn law_active_bits(cs: Seq<ChoiceView>, value: i64, c: ChoiceView)
    ensures
        active_bits(cs, value).contains(c) <==> cs.contains(c) && bit_set(value, c.value),
        active_bits(cs, value).len() <= cs.len(),
    decreases cs.len(),
{
    if cs.len() > 0 {
        let rest = cs.drop_last();
        let last = cs.last();
        law_active_bits(rest, value, c);
        assert(cs =~= rest.push(last));
        let before = active_bits(rest, value);
        if cs.contains(c) && !rest.contains(c) {
            let i = choose|i: int| 0 <= i < cs.len() && cs[i] == c;
            if i < rest.len() {
                assert(rest[i] == c);
            }
            assert(c == last);
        }
        if rest.contains(c) {
            let i = choose|i: int| 0 <= i < rest.len() && rest[i] == c;
            assert(cs[i] == c);
        }
        if bit_set(value, last.value) {
            let after = before.push(last);
            if before.contains(c) {
                let i = choose|i: int| 0 <= i < before.len() && before[i] == c;
                assert(after[i] == c);
            }
            if after.contains(c) {
                let i = choose|i: int| 0 <= i < after.len() && after[i] == c;
                if i < before.len() {
                    assert(before[i] == c);
                }
            }
            assert(after[before.len() as int] == last);
            assert(cs[rest.len() as int] == last);
        } else {
            assert(cs[rest.len() as int] == last);
        }
    }
}

/// A bit of a number that is not negative is set if the number, divided by the power of two, is
/// odd.
pub proof fn law_bits_are_binary_digits(value: i64, bit: i64)
    requires
        value >= 0,
        0 <= bit < 63,
    ensures
        bit_set(value, bit) <==> (value >> bit) % 2 == 1,
        !bit_set(value, 63),
{
    let b = bit as u64;
    assert(((value & (1i64 << b)) != 0) <==> ((value >> b) & 1 == 1)) by (bit_vector)
        requires
            b < 63,
            value >= 0,
    ;
    let x = value >> b;
    assert(x >= 0) by (bit_vector)
        requires
            x == value >> b,
            b < 63,
            value >= 0,
    ;
    assert((x & 1 == 1) <==> (x % 2 == 1)) by (bit_vector)
        requires
            x >= 0,
    ;
}

/// The line of choices lists bits before values, each choice as its number and its label; what is
/// too long is cut, and ends in three dots.
pub proof fn law_choices_are_listed(m: MetadataView, c: ChoiceView, s: Seq<char>, n: nat)
    ensures
        m.bits.len() > 0 ==> choices_line(m) == Some("Bits: "@ + choice_list(m.bits, 150)),
        m.bits.len() == 0 && m.values.len() > 0 ==> choices_line(m) == Some(
            "Values: "@ + choice_list(m.values, 150),
        ),
        choice_text(c) == decimal_int(c.value as int) + "="@ + c.label,
        s.len() <= n ==> compacted(s, n) == s,
        s.len() > n && n > 3 ==> compacted(s, n).len() == n && compacted(s, n).take(n - 3)
            == s.take(n - 3) && compacted(s, n).skip(n - 3) == "..."@,
{
    reveal_strlit("...");
    assert("..."@.len() == 3);
    if s.len() > n && n > 3 {
        assert(compacted(s, n).take(n - 3) =~= s.take(n - 3));
        assert(compacted(s, n).skip(n - 3) =~= "..."@);
    }
}

/// A popup takes its share of the screen, with equal room on both sides.
pub proof fn law_centered(percent: u16)
    requires
        percent <= 100,
    ensures
        centered(percent).0 == centered(percent).2,
        centered(percent).1 == percent,
        99 <= centered(percent).0 + centered(percent).1 + centered(percent).2 <= 100,
{
}

/// A record and what is said of it agree field by field.
pub proof fn law_views_are_faithful(
    row: AuditRow,
    cells: TableRow,
    write: WriteRequest,
    m: ParamMetadata,
)
    ensures
        row@.name == row.name@,
        row@.current == row.current@,
        row@.baseline == row.baseline@,
        row@.source == row.source@,
        row@.status == row.status@,
        row@.baseline_fallback == row.baseline_fallback,
        row@.mav_type == row.mav_type,
        row@.metadata is Some <==> row.metadata is Some,
        row.metadata matches Some(x) ==> row@.metadata == Some(x@),
        cells@.name == cells.name@,
        cells@.current == cells.current@,
        cells@.baseline == cells.baseline@,
        cells@.source == cells.source@,
        cells@.status == cells.status@,
        cells@.source_style == cells.source_style,
        cells@.status_style == cells.status_style,
        write@.name == write.name@,
        write@.value == write.value,
        write@.mav_type == write.mav_type,
        write@.encoding == write.encoding,
        write@.source == write.source@,
        m@.param_type == opt_text(m.param_type),
        m@.short_description == opt_text(m.short_description),
        m@.unit == opt_text(m.unit),
        m@.min == opt_text(m.min),
        m@.max == opt_text(m.max),
        m@.decimal == opt_text(m.decimal),
        m@.reboot_required == m.reboot_required,
        m@.values.len() == m.values@.len(),
        m@.bits.len() == m.bits@.len(),
        forall|i: int|
            0 <= i < m.values@.len() ==> (#[trigger] m@.values[i]).value == m.values@[i].value
                && m@.values[i].label == m.values@[i].label@,
        forall|i: int|
            0 <= i < m.bits@.len() ==> (#[trigger] m@.bits[i]).value == m.bits@[i].value
                && m@.bits[i].label == m.bits@[i].label@,
{
}

/// The drawn screen has a row for every listed index, and each of its cells shows the value of
/// that row of the audit in that column.
pub proof fn law_drawn_cells(app: &TuiApp, r: Screen, i: int)
    requires
        call_ensures(draw_tui, (app,), r),
        forall|k: int|
            0 <= k < app.filtered@.len() ==> #[trigger] app.filtered@[k] < app.rows@.len(),
        0 <= i < app.filtered@.len(),
    ensures
        r.rows@.len() == app.filtered@.len(),
        ({
            let cells = r.rows@[i];
            let row = app.rows@[app.filtered@[i] as int];
            &&& cells.name@ == row.name@
            &&& cells.current@ == row.current@
            &&& cells.baseline@ == row.baseline@
            &&& cells.source@ == row.source@
            &&& !row.baseline_fallback ==> cells.status@ == row.status@
            &&& row.baseline_fallback && row.status@ != "unknown"@ ==> cells.status@
                == "fallback "@ + row.status@
        }),
{
    law_screen_lists_the_rows(app@, i);
    assert(r@.rows[i] == r.rows@[i]@);
    assert(app@.rows[app.filtered@[i] as int] == app.rows@[app.filtered@[i] as int]@);
}

/// The drawn screen shows what is typed, the message and the selected index of the interface.
pub proof fn law_drawn_state(app: &TuiApp, r: Screen)
    requires
        call_ensures(draw_tui, (app,), r),
    ensures
        app.mode == TuiMode::Edit ==> r.input_value@ == app.edit_value@,
        app.mode == TuiMode::Search || app.mode == TuiMode::Browse ==> r.input_value@ == app.query@,
        app.filtered@.len() > 0 ==> r.selected == Some(app.selected),
        app.filtered@.len() == 0 ==> r.selected is None,
        r.popup is Some ==> app.mode == TuiMode::MetadataPopup,
{
    law_screen_shows_the_state(app@);
    assert(r@.popup is Some <==> r.popup is Some);
}

/// The plain table has every row of the audit, in order, each value in its column.
pub proof fn law_plain_cells(rows: &[AuditRow], r: Vec<TableRow>, i: int)
    requires
        call_ensures(audit_table, (rows,), r),
        0 <= i < rows@.len(),
    ensures
        r@.len() == rows@.len(),
        r@[i].name@ == rows@[i].name@,
        r@[i].current@ == rows@[i].current@,
        r@[i].baseline@ == rows@[i].baseline@,
        r@[i].source@ == rows@[i].source@,
        !rows@[i].baseline_fallback ==> r@[i].status@ == rows@[i].status@,
        rows@[i].baseline_fallback && rows@[i].status@ != "unknown"@ ==> r@[i].status@
            == "fallback "@ + rows@[i].status@,
{
    assert(table_view(r@).len() == rows@.len());
    assert(table_view(r@)[i] == plain_row(rows@[i]@));
    assert(table_view(r@)[i] == r@[i]@);
    law_cells_are_of_their_row(rows@[i]@);
}

} // verus!
