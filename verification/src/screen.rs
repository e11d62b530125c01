//! What the terminal shows: texts with their styles, and the sizes of the panels.

use vstd::prelude::*;

use crate::audit::{display_status, status_text};
use crate::detail::{
    choices_line, compact_line, compacted, current_line, is_boolean, metadata_choices_line,
    metadata_current_line, metadata_summary_line, summary_line, LIST_WIDTH,
};
use crate::model::{
    choices, AuditRow, ChoiceView, MetadataView, ParamChoice, ParamMetadata, RowView,
};
use crate::numeral::{decimal_int, int_text};
use crate::param::{bit_enabled, bit_set, integral_of, parse_integral_display_value};
use crate::text::{contains_text, has_text, opt_text, same_str};

verus! {

/// A colour of text.
#[derive(Clone, Copy, Debug, PartialEq, Eq, Structural)]
pub enum Color {
    /// That of the terminal.
    Plain,
    /// Green.
    Green,
    /// Red.
    Red,
    /// Dark gray.
    DarkGray,
    /// Yellow.
    Yellow,
    /// Cyan.
    Cyan,
    /// White.
    White,
}

/// A style of text.
#[derive(Clone, Copy, Debug, PartialEq, Eq, Structural)]
pub struct Style {
    /// The colour.
    pub color: Color,
    /// Whether the text is bold.
    pub bold: bool,
}

/// A style with a colour alone.
pub open spec fn colored(color: Color) -> Style {
    Style { color, bold: false }
}

/// A bold style with a colour.
pub open spec fn bold(color: Color) -> Style {
    Style { color, bold: true }
}

/// A piece of a line in one style.
#[derive(Debug)]
pub struct Span {
    /// The text.
    pub text: String,
    /// Its style.
    pub style: Style,
}

/// The view of a piece of a line.
pub struct SpanView {
    /// The text.
    pub text: Seq<char>,
    /// Its style.
    pub style: Style,
}

impl View for Span {
    type V = SpanView;

    open spec fn view(&self) -> SpanView {
        SpanView { text: self.text@, style: self.style }
    }
}

/// A line of text.
#[derive(Debug)]
pub struct Line {
    /// Its pieces.
    pub spans: Vec<Span>,
}

impl View for Line {
    type V = Seq<SpanView>;

    open spec fn view(&self) -> Seq<SpanView> {
        Seq::new(self.spans@.len(), |i: int| self.spans@[i]@)
    }
}

/// The views of lines.
pub open spec fn lines_view(v: Seq<Line>) -> Seq<Seq<SpanView>> {
    Seq::new(v.len(), |i: int| v[i]@)
}

/// A piece of a line.
pub open spec fn piece(text: Seq<char>, style: Style) -> SpanView {
    SpanView { text, style }
}

/// A line in no particular style.
pub open spec fn plain_line(text: Seq<char>) -> Seq<SpanView> {
    seq![piece(text, colored(Color::Plain))]
}

/// A plain line, if there is one.
pub open spec fn optional_line(text: Option<Seq<char>>) -> Seq<Seq<SpanView>> {
    match text {
        Some(t) => seq![plain_line(t)],
        None => seq![],
    }
}

/// The style of a status.
pub open spec fn style_of_status(status: Seq<char>) -> Style {
    if status == "match"@ {
        colored(Color::Green)
    } else if status == "diff"@ {
        colored(Color::Red)
    } else if status == "unknown"@ {
        colored(Color::DarkGray)
    } else {
        colored(Color::Plain)
    }
}

/// The style of the status of a row.
pub open spec fn style_of_row(row: RowView) -> Style {
    if row.baseline_fallback && row.status != "unknown"@ {
        bold(Color::Red)
    } else {
        style_of_status(row.status)
    }
}

/// The style of the source of a row.
pub open spec fn style_of_source(row: RowView) -> Style {
    if row.baseline_fallback {
        bold(Color::Red)
    } else {
        colored(Color::Plain)
    }
}

/// A line on the baseline.
pub open spec fn context_line(line: Seq<char>) -> Seq<SpanView> {
    seq![
        piece(
            line,
            if contains_text(line, "status=match"@) {
                colored(Color::Green)
            } else if contains_text(line, "status=mismatch"@) {
                bold(Color::Red)
            } else if contains_text(line, "status=unknown"@) {
                colored(Color::DarkGray)
            } else {
                colored(Color::Plain)
            },
        ),
    ]
}

/// The line of a choice.
pub open spec fn line_of_choice(value: int, label: Seq<char>, active: bool) -> Seq<SpanView> {
    let style = if active {
        bold(Color::Green)
    } else {
        colored(Color::Plain)
    };
    seq![
        piece(
            if active {
                "  * "@
            } else {
                "    "@
            },
            style,
        ),
        piece(decimal_int(value) + ": "@, style),
        piece(label, style),
    ]
}

/// The lines of bits, with those active that are set in the value.
pub open spec fn bit_lines(cs: Seq<ChoiceView>, value: i64) -> Seq<Seq<SpanView>> {
    Seq::new(
        cs.len(),
        |i: int| line_of_choice(cs[i].value as int, cs[i].label, bit_set(value, cs[i].value)),
    )
}

/// The lines of values, with the current one active.
pub open spec fn value_lines(cs: Seq<ChoiceView>, value: i64) -> Seq<Seq<SpanView>> {
    Seq::new(
        cs.len(),
        |i: int| line_of_choice(cs[i].value as int, cs[i].label, cs[i].value == value),
    )
}

/// The whole number that a row holds, or zero.
pub open spec fn number_of(current: Seq<char>) -> i64 {
    match integral_of(current) {
        Some(v) => v,
        None => 0,
    }
}

/// The lines of the choices of a parameter.
pub open spec fn choice_lines(m: MetadataView, current: Seq<char>) -> Seq<Seq<SpanView>> {
    let value = number_of(current);
    if m.bits.len() > 0 {
        seq![plain_line("Bits:"@)] + bit_lines(m.bits, value)
    } else if m.values.len() > 0 {
        seq![plain_line("Values:"@)] + value_lines(m.values, value)
    } else if is_boolean(m) {
        seq![
            plain_line("Values:"@),
            line_of_choice(0, "Disabled"@, value == 0),
            line_of_choice(1, "Enabled"@, value != 0),
        ]
    } else {
        seq![plain_line("No enum, boolean, or bitmask choices for this parameter"@)]
    }
}

/// A description behind its title, if there is one.
pub open spec fn described(text: Option<Seq<char>>) -> Option<Seq<char>> {
    match text {
        Some(t) => Some("Description: "@ + t),
        None => None,
    }
}

/// The lines on the metadata of a row.
pub open spec fn popup_lines(row: RowView) -> Seq<Seq<SpanView>> {
    match row.metadata {
        None => seq![plain_line("No PX4 metadata for this parameter"@)],
        Some(m) => seq![
            seq![
                piece("Current: "@, bold(Color::Plain)),
                piece(row.current, colored(Color::Plain)),
                piece("  "@, colored(Color::Plain)),
                piece("Baseline: "@, bold(Color::Plain)),
                piece(row.baseline, colored(Color::Plain)),
            ],
        ] + optional_line(summary_line(m)) + optional_line(described(m.short_description)) + seq![
            plain_line(""@),
        ] + choice_lines(m, row.current),
    }
}

/// The warning on a fallback.
pub open spec fn fallback_warning() -> Seq<char> {
    "Fallback baseline: firmware metadata/default only; airframe-specific defaults were not applied and default writes are disabled for this row."@
}

/// The line on the keys.
pub open spec fn key_help() -> Seq<char> {
    "Keys: q quit | ? metadata | f diffs/all | e/Enter edit | d default selected | A default all | / search"@
}

/// The lines on the metadata of the selected row.
pub open spec fn metadata_detail(row: RowView) -> Seq<Seq<SpanView>> {
    match row.metadata {
        None => seq![],
        Some(m) => optional_line(summary_line(m)) + optional_line(current_line(row.current, m))
            + optional_line(choices_line(m)) + optional_line(
            described(
                match m.short_description {
                    Some(t) => Some(compacted(t, LIST_WIDTH as nat)),
                    None => None,
                },
            ),
        ),
    }
}

/// The lines on the selected row.
pub open spec fn detail_lines(row: RowView, message: Seq<char>) -> Seq<Seq<SpanView>> {
    seq![
        seq![
            piece("Selected: "@, bold(Color::Plain)),
            piece(row.name, colored(Color::Plain)),
            piece("  "@, colored(Color::Plain)),
            piece(status_text(row), style_of_row(row)),
        ],
    ] + metadata_detail(row) + (if row.baseline_fallback {
        seq![seq![piece(fallback_warning(), bold(Color::Red))]]
    } else {
        seq![]
    }) + seq![plain_line(message), plain_line(key_help())]
}

fn plain() -> (r: Style)
    ensures
        r == colored(Color::Plain),
{
    Style { color: Color::Plain, bold: false }
}

fn strong() -> (r: Style)
    ensures
        r == bold(Color::Plain),
{
    Style { color: Color::Plain, bold: true }
}

fn span(text: String, style: Style) -> (r: Span)
    ensures
        r@ == piece(text@, style),
{
    Span { text, style }
}

fn line_of(text: String) -> (r: Line)
    ensures
        r@ == plain_line(text@),
{
    let mut spans: Vec<Span> = Vec::new();
    spans.push(span(text, plain()));
    let r = Line { spans };
    assert(r@ =~= plain_line(text@));
    r
}

fn literal_line(text: &str) -> (r: Line)
    ensures
        r@ == plain_line(text@),
{
    line_of(String::from_str(text))
}

fn push_line(lines: &mut Vec<Line>, line: Line)
    ensures
        lines_view(final(lines)@) == lines_view(old(lines)@).push(line@),
{
    let ghost before = lines@;
    lines.push(line);
    assert(lines_view(lines@) =~= lines_view(before).push(line@));
}

fn push_optional(lines: &mut Vec<Line>, text: Option<String>)
    ensures
        lines_view(final(lines)@) == lines_view(old(lines)@) + optional_line(
            opt_text(text),
        ),
{
    let ghost before = lines_view(lines@);
    if let Some(t) = text {
        push_line(lines, line_of(t));
    }
    assert(lines_view(lines@) =~= before + optional_line(opt_text(text)));
}

/// The style of a status.
pub fn status_style(status: &str) -> (r: Style)
    ensures
        r == style_of_status(status@),
{
    let color = if same_str(status, "match") {
        Color::Green
    } else if same_str(status, "diff") {
        Color::Red
    } else if same_str(status, "unknown") {
        Color::DarkGray
    } else {
        Color::Plain
    };
    Style { color, bold: false }
}

/// The style of the status of a row.
pub fn status_style_for_row(row: &AuditRow) -> (r: Style)
    ensures
        r == style_of_row(row@),
{
    if row.baseline_fallback && !same_str(row.status.as_str(), "unknown") {
        Style { color: Color::Red, bold: true }
    } else {
        status_style(row.status.as_str())
    }
}

/// The style of the source of a row.
pub fn source_style(row: &AuditRow) -> (r: Style)
    ensures
        r == style_of_source(row@),
{
    if row.baseline_fallback {
        Style { color: Color::Red, bold: true }
    } else {
        plain()
    }
}

/// A line on the baseline.
pub fn baseline_context_line(line: &str) -> (r: Line)
    ensures
        r@ == context_line(line@),
{
    let style = if has_text(line, "status=match") {
        Style { color: Color::Green, bold: false }
    } else if has_text(line, "status=mismatch") {
        Style { color: Color::Red, bold: true }
    } else if has_text(line, "status=unknown") {
        Style { color: Color::DarkGray, bold: false }
    } else {
        plain()
    };
    let mut spans: Vec<Span> = Vec::new();
    spans.push(span(String::from_str(line), style));
    let r = Line { spans };
    assert(r@ =~= context_line(line@));
    r
}

/// The line of a choice.
pub fn choice_line(value: i64, label: &str, active: bool) -> (r: Line)
    ensures
        r@ == line_of_choice(value as int, label@, active),
{
    let style = if active {
        Style { color: Color::Green, bold: true }
    } else {
        plain()
    };
    let prefix = if active {
        "  * "
    } else {
        "    "
    };
    let mut number = int_text(value);
    number.append(": ");
    let mut spans: Vec<Span> = Vec::new();
    spans.push(span(String::from_str(prefix), style));
    spans.push(span(number, style));
    spans.push(span(String::from_str(label), style));
    let r = Line { spans };
    assert(r@ =~= line_of_choice(value as int, label@, active));
    r
}

fn shown_number(current: &str) -> (r: i64)
    ensures
        r == number_of(current@),
{
    match parse_integral_display_value(current) {
        Some(v) => v,
        None => 0,
    }
}

fn push_bits(lines: &mut Vec<Line>, list: &Vec<ParamChoice>, value: i64)
    ensures
        lines_view(final(lines)@) == lines_view(old(lines)@) + bit_lines(choices(list@), value),
{
    let ghost before = lines_view(lines@);
    let ghost all = bit_lines(choices(list@), value);
    assert(before + all.take(0) =~= before);
    for i in 0..list.len()
        invariant
            all == bit_lines(choices(list@), value),
            lines_view(lines@) == before + all.take(i as int),
    {
        let c = &list[i];
        push_line(lines, choice_line(c.value, c.label.as_str(), bit_enabled(value, c.value)));
        assert(choices(list@)[i as int] == c@);
        assert(before + all.take(i + 1) =~= (before + all.take(i as int)).push(all[i as int]));
    }
    assert(all.take(all.len() as int) =~= all);
}

fn push_values(lines: &mut Vec<Line>, list: &Vec<ParamChoice>, value: i64)
    ensures
        lines_view(final(lines)@) == lines_view(old(lines)@) + value_lines(choices(list@), value),
{
    let ghost before = lines_view(lines@);
    let ghost all = value_lines(choices(list@), value);
    assert(before + all.take(0) =~= before);
    for i in 0..list.len()
        invariant
            all == value_lines(choices(list@), value),
            lines_view(lines@) == before + all.take(i as int),
    {
        let c = &list[i];
        push_line(lines, choice_line(c.value, c.label.as_str(), c.value == value));
        assert(choices(list@)[i as int] == c@);
        assert(before + all.take(i + 1) =~= (before + all.take(i as int)).push(all[i as int]));
    }
    assert(all.take(all.len() as int) =~= all);
}

fn push_choices(lines: &mut Vec<Line>, metadata: &ParamMetadata, current: &str)
    ensures
        lines_view(final(lines)@) == lines_view(old(lines)@) + choice_lines(metadata@, current@),
{
    let ghost before = lines_view(lines@);
    let value = shown_number(current);
    let boolean = match &metadata.param_type {
        Some(t) => same_str(t.as_str(), "boolean"),
        None => false,
    };
    if metadata.bits.len() > 0 {
        push_line(lines, literal_line("Bits:"));
        push_bits(lines, &metadata.bits, value);
    } else if metadata.values.len() > 0 {
        push_line(lines, literal_line("Values:"));
        push_values(lines, &metadata.values, value);
    } else if boolean {
        push_line(lines, literal_line("Values:"));
        push_line(lines, choice_line(0, "Disabled", value == 0));
        push_line(lines, choice_line(1, "Enabled", value != 0));
    } else {
        push_line(
            lines,
            literal_line("No enum, boolean, or bitmask choices for this parameter"),
        );
    }
    assert(lines_view(lines@) =~= before + choice_lines(metadata@, current@));
}

fn description_text(text: &str) -> (r: String)
    ensures
        r@ == "Description: "@ + text@,
{
    let mut out = String::from_str("Description: ");
    out.append(text);
    out
}

/// The lines on the metadata of a row: its values, what is documented, and all its choices.
pub fn metadata_popup_lines(row: &AuditRow) -> (r: Vec<Line>)
    ensures
        lines_view(r@) == popup_lines(row@),
{
    let mut lines: Vec<Line> = Vec::new();
    assert(lines_view(lines@) =~= Seq::empty());
    match &row.metadata {
        None => {
            push_line(&mut lines, literal_line("No PX4 metadata for this parameter"));
            assert(lines_view(lines@) =~= popup_lines(row@));
        },
        Some(m) => {
            let mut spans: Vec<Span> = Vec::new();
            spans.push(span(String::from_str("Current: "), strong()));
            spans.push(span(row.current.clone(), plain()));
            spans.push(span(String::from_str("  "), plain()));
            spans.push(span(String::from_str("Baseline: "), strong()));
            spans.push(span(row.baseline.clone(), plain()));
            let first = Line { spans };
            let ghost top = seq![
                piece("Current: "@, bold(Color::Plain)),
                piece(row@.current, colored(Color::Plain)),
                piece("  "@, colored(Color::Plain)),
                piece("Baseline: "@, bold(Color::Plain)),
                piece(row@.baseline, colored(Color::Plain)),
            ];
            assert(first@ =~= top);
            push_line(&mut lines, first);
            assert(lines_view(lines@) =~= seq![top]);
            push_optional(&mut lines, metadata_summary_line(m));
            let description = match &m.short_description {
                Some(t) => Some(description_text(t.as_str())),
                None => None,
            };
            push_optional(&mut lines, description);
            let ghost before = lines_view(lines@);
            push_line(&mut lines, literal_line(""));
            assert(lines_view(lines@) =~= before + seq![plain_line(""@)]);
            push_choices(&mut lines, m, row.current.as_str());
        },
    }
    lines
}

/// The lines on the selected row.
pub fn selected_detail_lines(row: &AuditRow, status_message: &str) -> (r: Vec<Line>)
    ensures
        lines_view(r@) == detail_lines(row@, status_message@),
{
    let mut spans: Vec<Span> = Vec::new();
    spans.push(span(String::from_str("Selected: "), strong()));
    spans.push(span(row.name.clone(), plain()));
    spans.push(span(String::from_str("  "), plain()));
    spans.push(span(display_status(row), status_style_for_row(row)));
    let first = Line { spans };
    let ghost top = seq![
        piece("Selected: "@, bold(Color::Plain)),
        piece(row@.name, colored(Color::Plain)),
        piece("  "@, colored(Color::Plain)),
        piece(status_text(row@), style_of_row(row@)),
    ];
    assert(first@ =~= top);
    let mut lines: Vec<Line> = Vec::new();
    assert(lines_view(lines@) =~= Seq::empty());
    push_line(&mut lines, first);
    assert(lines_view(lines@) =~= seq![top]);
    if let Some(m) = &row.metadata {
        push_optional(&mut lines, metadata_summary_line(m));
        push_optional(&mut lines, metadata_current_line(row, m));
        push_optional(&mut lines, metadata_choices_line(m));
        let description = match &m.short_description {
            Some(t) => {
                let short = compact_line(t.as_str(), LIST_WIDTH);
                Some(description_text(short.as_str()))
            },
            None => None,
        };
        push_optional(&mut lines, description);
    }
    assert(lines_view(lines@) =~= seq![top] + metadata_detail(row@));
    let ghost before = lines_view(lines@);
    if row.baseline_fallback {
        let mut spans: Vec<Span> = Vec::new();
        spans.push(
            span(
                String::from_str(
                    "Fallback baseline: firmware metadata/default only; airframe-specific defaults were not applied and default writes are disabled for this row.",
                ),
                Style { color: Color::Red, bold: true },
            ),
        );
        let warning = Line { spans };
        assert(warning@ =~= seq![piece(fallback_warning(), bold(Color::Red))]);
        push_line(&mut lines, warning);
    }
    let ghost warned = lines_view(lines@);
    push_line(&mut lines, literal_line(status_message));
    push_line(
        &mut lines,
        literal_line(
            "Keys: q quit | ? metadata | f diffs/all | e/Enter edit | d default selected | A default all | / search",
        ),
    );
    assert(lines_view(lines@) =~= warned + seq![
        plain_line(status_message@),
        plain_line(key_help()),
    ]);
    assert(lines_view(lines@) =~= detail_lines(row@, status_message@));
    lines
}

} // verus!
