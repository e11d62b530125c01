use px4_param_audit::draw::{audit_table, centered_parts, draw_tui};
use px4_param_audit::ieee::Real32;
use px4_param_audit::model::{AuditRow, ParamChoice, ParamMetadata};
use px4_param_audit::param::{MavParamType, ParamEncoding, ParamValue};
use px4_param_audit::screen::{
    baseline_context_line, choice_line, metadata_popup_lines, selected_detail_lines, source_style,
    status_style, status_style_for_row, Color, Line, Style,
};
use px4_param_audit::session::{LoopAction, LoopEvent, TuiSession};
use px4_param_audit::tui::{
    handle_key, row_matches_query, KeyCode, KeyEvent, TuiAction, TuiApp, TuiMode,
};

fn row(name: &str, current: &str, baseline: &str, status: &str) -> AuditRow {
    AuditRow {
        name: name.into(),
        current: current.into(),
        baseline: baseline.into(),
        source: "airframe default".into(),
        status: status.into(),
        baseline_fallback: false,
        mav_type: MavParamType::Int32,
        metadata: None,
    }
}

fn sample() -> TuiApp {
    TuiApp::new(
        vec![
            row("BAT1_N_CELLS", "0", "4", "diff"),
            row("EKF2_GPS_CTRL", "7", "7", "match"),
            row("GPS_1_CONFIG", "0", "GPS1", "diff"),
            row("MPC_XY_P", "1", "<unknown>", "unknown"),
        ],
        vec!["Baseline: test".into()],
        ParamEncoding::Bytewise,
    )
}

fn plain(code: KeyCode) -> KeyEvent {
    KeyEvent {
        code,
        control: false,
        shift: false,
        other: false,
    }
}

fn control(c: char) -> KeyEvent {
    KeyEvent {
        control: true,
        ..plain(KeyCode::Char(c))
    }
}

fn press(app: &mut TuiApp, keys: &str) {
    for c in keys.chars() {
        assert!(matches!(
            handle_key(app, plain(KeyCode::Char(c))),
            TuiAction::Continue
        ));
    }
}

fn text(line: &Line) -> String {
    line.spans.iter().map(|span| span.text.as_str()).collect()
}

fn bytewise(bits: u32) -> ParamValue {
    ParamValue {
        value: Real32 { bits },
        mav_type: MavParamType::Int32,
        encoding: ParamEncoding::Bytewise,
    }
}

#[test]
fn browsing_writes_nothing() {
    let mut app = sample();
    for code in (0u8..128).map(|c| KeyCode::Char(c as char)).chain([
        KeyCode::Up,
        KeyCode::Down,
        KeyCode::PageUp,
        KeyCode::PageDown,
        KeyCode::Backspace,
        KeyCode::Other,
    ]) {
        if matches!(code, KeyCode::Char('d' | '/' | 'e' | 'A' | 'q')) {
            continue;
        }
        assert!(matches!(
            handle_key(&mut app, plain(code)),
            TuiAction::Continue
        ));
        assert_eq!(app.mode, TuiMode::Browse);
    }
    assert!(matches!(
        handle_key(&mut app, plain(KeyCode::Char('q'))),
        TuiAction::Quit
    ));
}

#[test]
fn searches_whatever_the_case() {
    let mut app = sample();
    press(&mut app, "/gps");
    assert_eq!(app.mode, TuiMode::Search);
    assert_eq!(app.filtered, vec![1, 2]);
    handle_key(&mut app, plain(KeyCode::Enter));
    assert_eq!(app.mode, TuiMode::Browse);
    assert_eq!(app.query, "gps");
    press(&mut app, "/_c");
    assert_eq!(app.query, "gps_c");
    assert_eq!(app.filtered, vec![1]);
    handle_key(&mut app, plain(KeyCode::Backspace));
    assert_eq!(app.query, "gps_");
    handle_key(&mut app, control('u'));
    assert_eq!(app.query, "");
    assert_eq!(app.filtered, vec![0, 1, 2, 3]);
    press(&mut app, "zzz");
    assert!(app.filtered.is_empty());
    assert_eq!(app.selected, 0);
    assert!(app.selected_row().is_none());
    handle_key(&mut app, plain(KeyCode::Esc));
    assert_eq!(app.mode, TuiMode::Browse);
    assert_eq!(app.filtered, vec![0, 1, 2, 3]);
}

#[test]
fn matches_every_text_of_a_row() {
    let mut r = row("NAME", "CURRENT", "BASELINE", "STATUS");
    r.source = "SOURCE \u{c4}\u{3a3}".into();
    for query in ["", "am", "rrent", "base", "source", "stat", "\u{e4}\u{3c2}"] {
        assert!(row_matches_query(&r, query), "{query}");
    }
    assert!(!row_matches_query(&r, "NAME"));
    assert!(!row_matches_query(&r, "other"));
}

#[test]
fn moves_within_the_list() {
    let mut app = sample();
    press(&mut app, "jj");
    assert_eq!(app.selected, 2);
    handle_key(&mut app, plain(KeyCode::PageDown));
    assert_eq!(app.selected, 3);
    press(&mut app, "k");
    assert_eq!(app.selected, 2);
    handle_key(&mut app, control('u'));
    assert_eq!(app.selected, 0);
    handle_key(&mut app, control('d'));
    assert_eq!(app.selected, 3);
    press(&mut app, "g");
    assert_eq!(app.selected, 0);
    press(&mut app, "G");
    assert_eq!(app.selected, 3);
    app.move_down(usize::MAX);
    assert_eq!(app.selected, 3);
    app.move_up(usize::MAX);
    assert_eq!(app.selected, 0);
    handle_key(&mut app, plain(KeyCode::Down));
    handle_key(&mut app, plain(KeyCode::Up));
    handle_key(&mut app, plain(KeyCode::PageUp));
    assert_eq!(app.selected, 0);
}

#[test]
fn toggling_twice_gives_the_list_back() {
    let mut app = sample();
    press(&mut app, "Gf");
    assert_eq!(app.filtered, vec![0, 2]);
    assert_eq!(app.selected, 1);
    assert_eq!(app.status_message, "Showing 2 differing parameter(s)");
    press(&mut app, "f");
    assert_eq!(app.filtered, vec![0, 1, 2, 3]);
    assert_eq!(app.status_message, "Showing all 4 parameter(s)");
    handle_key(&mut app, control('f'));
    assert!(!app.show_diffs_only);
}

#[test]
fn edits_and_writes_a_value() {
    let mut app = sample();
    press(&mut app, "e");
    assert_eq!(app.mode, TuiMode::Edit);
    assert_eq!(app.edit_value, "0");
    assert_eq!(
        app.status_message,
        "Editing BAT1_N_CELLS. Enter writes, Esc cancels."
    );
    handle_key(&mut app, plain(KeyCode::Backspace));
    press(&mut app, " 6 ");
    match handle_key(&mut app, plain(KeyCode::Enter)) {
        TuiAction::Write(write) => {
            assert_eq!(write.name, "BAT1_N_CELLS");
            assert_eq!(write.value.bits, 6.0f32.to_bits());
            assert_eq!(write.encoding, ParamEncoding::Bytewise);
            assert_eq!(write.source, "TUI edit");
        }
        _ => panic!("no write"),
    }
    handle_key(&mut app, control('u'));
    handle_key(&mut app, plain(KeyCode::Enter));
    assert_eq!(
        app.status_message,
        "Invalid value: cannot parse float from empty string"
    );
    press(&mut app, "1,2");
    handle_key(&mut app, plain(KeyCode::Enter));
    assert_eq!(
        app.status_message,
        "Invalid value: not a single numeric value: 1,2"
    );
    handle_key(&mut app, plain(KeyCode::Backspace));
    press(&mut app, "x");
    handle_key(&mut app, plain(KeyCode::Enter));
    assert_eq!(
        app.status_message,
        "Invalid value: not a single numeric value: 1,x"
    );
    handle_key(&mut app, control('u'));
    press(&mut app, "abc");
    handle_key(&mut app, plain(KeyCode::Enter));
    assert_eq!(app.status_message, "Invalid value: invalid float literal");
    handle_key(&mut app, plain(KeyCode::Esc));
    assert_eq!(app.mode, TuiMode::Browse);
    assert_eq!(app.edit_value, "");
    assert_eq!(app.status_message, "Edit cancelled");
}

#[test]
fn resets_the_selected_value() {
    let mut app = sample();
    match handle_key(&mut app, plain(KeyCode::Char('d'))) {
        TuiAction::Write(write) => {
            assert_eq!(write.value.bits, 4.0f32.to_bits());
            assert_eq!(write.source, "TUI default selected (airframe default)");
        }
        _ => panic!("no write"),
    }
    press(&mut app, "jd");
    assert_eq!(
        app.status_message,
        "EKF2_GPS_CTRL already matches PX4 baseline"
    );
    press(&mut app, "jd");
    assert_eq!(
        app.status_message,
        "No single numeric PX4 baseline for GPS_1_CONFIG"
    );
    app.rows[0].baseline_fallback = true;
    press(&mut app, "gd");
    assert_eq!(
        app.status_message,
        "Refusing to write fallback QGC-style baseline for BAT1_N_CELLS"
    );
    app.filtered.clear();
    press(&mut app, "d");
}

#[test]
fn resets_all_values_after_a_yes() {
    let mut app = sample();
    press(&mut app, "A");
    assert_eq!(app.mode, TuiMode::ConfirmDefaults);
    assert_eq!(app.pending_writes.len(), 1);
    assert_eq!(
        app.status_message,
        "WARNING: reset 1 numeric non-default value(s) on the device? y=yes n=no"
    );
    press(&mut app, "x");
    match handle_key(&mut app, plain(KeyCode::Char('y'))) {
        TuiAction::WriteMany(writes) => {
            assert_eq!(writes.len(), 1);
            assert_eq!(writes[0].name, "BAT1_N_CELLS");
            assert_eq!(writes[0].source, "TUI default all (airframe default)");
        }
        _ => panic!("no writes"),
    }
    press(&mut app, "n");
    assert_eq!(app.mode, TuiMode::Browse);
    assert!(app.pending_writes.is_empty());
    assert_eq!(app.status_message, "Default-all write cancelled");
    app.rows[0].baseline_fallback = true;
    handle_key(
        &mut app,
        KeyEvent {
            shift: true,
            ..plain(KeyCode::Char('A'))
        },
    );
    assert_eq!(app.mode, TuiMode::Browse);
    assert_eq!(
        app.status_message,
        "No numeric non-default values have a known PX4 baseline to write"
    );
}

#[test]
fn opens_and_closes_the_choices() {
    let mut app = sample();
    press(&mut app, "?");
    assert_eq!(
        app.status_message,
        "No enum, boolean, or bitmask metadata for selected parameter"
    );
    app.rows[0].metadata = Some(ParamMetadata {
        param_type: Some("boolean".into()),
        ..ParamMetadata::default()
    });
    press(&mut app, "m");
    assert_eq!(app.mode, TuiMode::MetadataPopup);
    let screen = draw_tui(&app);
    let popup = screen.popup.expect("popup");
    assert_eq!(popup.title, "BAT1_N_CELLS metadata - ?/Enter/Esc close");
    press(&mut app, "x?");
    assert_eq!(app.mode, TuiMode::Browse);
    assert_eq!(app.status_message, "Metadata popup closed");
    press(&mut app, "?");
    assert!(matches!(
        handle_key(&mut app, plain(KeyCode::Char('q'))),
        TuiAction::Quit
    ));
}

#[test]
fn confirmed_values_show_up() {
    let mut app = sample();
    app.update_selected_value(bytewise(4));
    assert_eq!(app.rows[0].current, "4");
    assert_eq!(app.rows[0].status, "match");
    assert_eq!(app.status_message, "Set BAT1_N_CELLS = 4");
    app.update_value_by_name("EKF2_GPS_CTRL", bytewise(15));
    assert_eq!(app.rows[1].current, "15");
    assert_eq!(app.rows[1].status, "diff");
    app.update_value_by_name("NO_SUCH", bytewise(15));
    assert_eq!(app.rows[3].current, "1");
}

#[test]
fn a_session_writes_one_value() {
    let mut session = TuiSession::new(sample());
    let action = session.step(LoopEvent::Key(plain(KeyCode::Char('d'))));
    let LoopAction::Send(write) = action else {
        panic!("no write");
    };
    assert_eq!(write.name, "BAT1_N_CELLS");
    session.announce("4");
    assert_eq!(session.app.status_message, "Writing BAT1_N_CELLS = 4...");
    let action = session.step(LoopEvent::Failed("timed out".into()));
    assert!(matches!(action, LoopAction::Wait));
    assert_eq!(session.app.status_message, "Write failed: timed out");
    session.step(LoopEvent::Key(plain(KeyCode::Char('d'))));
    session.step(LoopEvent::Confirmed(bytewise(4)));
    assert_eq!(session.app.rows[0].status, "match");
    assert_eq!(session.app.mode, TuiMode::Browse);
    assert!(matches!(
        session.step(LoopEvent::Confirmed(bytewise(9))),
        LoopAction::Wait
    ));
    assert_eq!(session.app.rows[0].current, "4");
    assert!(matches!(
        session.step(LoopEvent::Key(plain(KeyCode::Char('q')))),
        LoopAction::Quit
    ));
}

#[test]
fn a_session_writes_several_values_until_one_fails() {
    let mut app = sample();
    app.rows[2].baseline = "201".into();
    let mut session = TuiSession::new(app);
    session.step(LoopEvent::Key(plain(KeyCode::Char('A'))));
    let LoopAction::Send(first) = session.step(LoopEvent::Key(plain(KeyCode::Char('y')))) else {
        panic!("no write");
    };
    assert_eq!(first.name, "BAT1_N_CELLS");
    session.announce("4");
    assert_eq!(
        session.app.status_message,
        "Writing 1/2: BAT1_N_CELLS = 4..."
    );
    let LoopAction::Send(second) = session.step(LoopEvent::Confirmed(bytewise(4))) else {
        panic!("no write");
    };
    assert_eq!(second.name, "GPS_1_CONFIG");
    let mut copy = TuiSession::new(sample());
    copy.app.rows[2].baseline = "201".into();
    copy.step(LoopEvent::Key(plain(KeyCode::Char('A'))));
    copy.step(LoopEvent::Key(plain(KeyCode::Char('Y'))));
    copy.step(LoopEvent::Confirmed(bytewise(4)));
    assert!(matches!(
        copy.step(LoopEvent::Failed("no answer".into())),
        LoopAction::Wait
    ));
    assert_eq!(
        copy.app.status_message,
        "Stopped after 1/2 writes. GPS_1_CONFIG failed: no answer"
    );
    assert!(matches!(
        session.step(LoopEvent::Confirmed(bytewise(201))),
        LoopAction::Wait
    ));
    assert_eq!(
        session.app.status_message,
        "Reset 2 parameter(s) to PX4 baseline"
    );
    assert_eq!(session.app.rows[2].status, "match");
}

#[test]
fn an_empty_batch_is_done_at_once() {
    let mut session = TuiSession::new(sample());
    session.app.mode = TuiMode::ConfirmDefaults;
    assert!(matches!(
        session.step(LoopEvent::Key(plain(KeyCode::Char('y')))),
        LoopAction::Wait
    ));
    assert_eq!(
        session.app.status_message,
        "Reset 0 parameter(s) to PX4 baseline"
    );
}

#[test]
fn draws_the_screen() {
    let mut app = sample();
    let screen = draw_tui(&app);
    assert_eq!((screen.context_height, screen.status_height), (3, 8));
    assert_eq!(screen.title, "PX4 Params - all params - 4 of 4 shown");
    assert_eq!(screen.rows.len(), 4);
    assert_eq!(screen.selected, Some(0));
    assert_eq!(screen.input_style.color, Color::Plain);
    assert!(screen.popup.is_none());
    app.context_lines = vec!["a".into(); 3];
    assert_eq!(draw_tui(&app).context_height, 5);
    app.context_lines = vec!["a".into(); 5];
    assert_eq!(draw_tui(&app).context_height, 6);
    app.context_lines = vec!["a".into(); 6];
    let screen = draw_tui(&app);
    assert_eq!((screen.context_height, screen.status_height), (10, 5));
    press(&mut app, "/zzz");
    let screen = draw_tui(&app);
    assert_eq!(screen.input_title, "Search (Enter done, Esc clear)");
    assert_eq!(screen.input_value, "zzz");
    assert_eq!(screen.selected, None);
    assert_eq!(text(&screen.detail[0]), "No matching parameters");
    assert_eq!(screen.title, "PX4 Params - all params - 0 of 4 shown");
    app.mode = TuiMode::ConfirmDefaults;
    let screen = draw_tui(&app);
    assert_eq!(
        screen.input_value,
        "WARNING: all numeric non-default values will be reset on the device"
    );
    assert!(screen.input_style.bold);
}

#[test]
fn styles_statuses() {
    let style = |color, bold| Style { color, bold };
    assert_eq!(status_style("match"), style(Color::Green, false));
    assert_eq!(status_style("diff"), style(Color::Red, false));
    assert_eq!(status_style("unknown"), style(Color::DarkGray, false));
    assert_eq!(status_style("other"), style(Color::Plain, false));
    let mut r = row("A", "1", "2", "diff");
    r.baseline_fallback = true;
    assert_eq!(status_style_for_row(&r), style(Color::Red, true));
    assert_eq!(source_style(&r), style(Color::Red, true));
    r.status = "unknown".into();
    assert_eq!(status_style_for_row(&r), style(Color::DarkGray, false));
    for (line, expected) in [
        ("x: status=match y", style(Color::Green, false)),
        ("x: status=mismatch y", style(Color::Red, true)),
        ("x: status=unknown y", style(Color::DarkGray, false)),
        ("x", style(Color::Plain, false)),
    ] {
        assert_eq!(baseline_context_line(line).spans[0].style, expected);
    }
}

#[test]
fn lists_choices() {
    let mut r = row("EKF2_GPS_CTRL", "5", "7", "diff");
    assert_eq!(
        text(&metadata_popup_lines(&r)[0]),
        "No PX4 metadata for this parameter"
    );
    let bits = vec![
        ParamChoice {
            value: 0,
            label: "Lon/lat".into(),
        },
        ParamChoice {
            value: 1,
            label: "Altitude".into(),
        },
    ];
    r.metadata = Some(ParamMetadata {
        param_type: Some("bitmask".into()),
        short_description: Some("GNSS".into()),
        bits,
        ..ParamMetadata::default()
    });
    let lines: Vec<String> = metadata_popup_lines(&r).iter().map(text).collect();
    assert_eq!(
        lines,
        vec![
            "Current: 5  Baseline: 7",
            "PX4 metadata: bitmask",
            "Description: GNSS",
            "",
            "Bits:",
            "  * 0: Lon/lat",
            "    1: Altitude",
        ]
    );
    let values = ParamMetadata {
        values: r.metadata.as_ref().expect("metadata").bits.clone(),
        ..ParamMetadata::default()
    };
    r.current = "1".into();
    r.metadata = Some(values);
    let lines: Vec<String> = metadata_popup_lines(&r).iter().map(text).collect();
    assert_eq!(lines[2..], ["Values:", "    0: Lon/lat", "  * 1: Altitude"]);
    r.metadata = Some(ParamMetadata {
        param_type: Some("boolean".into()),
        ..ParamMetadata::default()
    });
    let lines: Vec<String> = metadata_popup_lines(&r).iter().map(text).collect();
    assert_eq!(lines[3..], ["Values:", "    0: Disabled", "  * 1: Enabled"]);
    r.metadata = Some(ParamMetadata::default());
    let lines: Vec<String> = metadata_popup_lines(&r).iter().map(text).collect();
    assert_eq!(
        lines[2],
        "No enum, boolean, or bitmask choices for this parameter"
    );
    let active = choice_line(-1, "minus", true);
    assert_eq!(text(&active), "  * -1: minus");
    assert!(active.spans.iter().all(|span| span.style.bold));
}

#[test]
fn details_the_selected_row() {
    let mut r = row("A", "2", "1", "diff");
    r.baseline_fallback = true;
    r.metadata = Some(ParamMetadata {
        param_type: Some("int32".into()),
        min: Some("0".into()),
        max: Some("9".into()),
        unit: Some("m".into()),
        decimal: Some("2".into()),
        reboot_required: true,
        short_description: Some("x".repeat(151)),
        ..ParamMetadata::default()
    });
    let lines: Vec<String> = selected_detail_lines(&r, "hello").iter().map(text).collect();
    assert_eq!(lines[0], "Selected: A  fallback diff");
    assert_eq!(
        lines[1],
        "PX4 metadata: int32 | range 0..9 | unit m | decimal 2 | reboot required"
    );
    assert_eq!(lines[2], format!("Description: {}...", "x".repeat(147)));
    assert!(lines[3].starts_with("Fallback baseline:"));
    assert_eq!(lines[4], "hello");
    assert!(lines[5].starts_with("Keys: q quit"));
    assert_eq!(lines.len(), 6);
}

#[test]
fn colours_the_plain_table() {
    let mut rows = sample().rows;
    rows[0].baseline_fallback = true;
    rows.push(row("Z", "1", "1", "odd"));
    let table = audit_table(&rows);
    let colors: Vec<Color> = table.iter().map(|r| r.status_style.color).collect();
    assert_eq!(
        colors,
        vec![
            Color::Red,
            Color::Green,
            Color::Red,
            Color::DarkGray,
            Color::White
        ]
    );
    assert_eq!(table[0].status, "fallback diff");
    assert_eq!(centered_parts(84), (8, 84, 8));
    assert_eq!(centered_parts(71), (14, 71, 14));
}
