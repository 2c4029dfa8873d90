use ratatui::backend::TestBackend;
use ratatui::layout::{Alignment, Rect};
use ratatui::style::{Modifier, Style as TerminalStyle};
use ratatui::text::{Line, Span as TerminalSpan};
use ratatui::widgets::{
    Block, BorderType, Borders, HighlightSpacing, LineGauge, List, ListItem, ListState, Paragraph,
    Wrap,
};
use ratatui::{Frame, Terminal};
use waywarm::config::{Levels, Schedule, ScheduleTiming, Settings};
use waywarm::coordinate::Coordinate;
use waywarm::dashboard::{
    format_percent, format_warmth, render, render_timeline_bar, screen_areas,
};
use waywarm::protocol::RuntimeState;
use waywarm::schedule::{current_levels, LocalTime, Sky};
use waywarm::screen::{
    pad, pad_left, truncate_with_ellipsis, Align, Area, Color, Drawing, Span, Style, BORDER, COOL,
    NOW, TEXT,
};
use waywarm::tui::{
    adjust_coordinate, adjust_percent, adjust_time, manual_levels, selected_help, set_filter,
    toggle_filter, App, Effect, Field, Key, FIELDS,
};
use waywarm::ui_common::{
    backend_status, build_timeline_segments, TimelinePhase, TimelineView, MINUTES_PER_DAY,
};

const SKY: Sky = Sky { dawn: None, dusk: None, offset: 0 };
const NO_COORDINATE: Coordinate = Coordinate { bits: 0 };

fn noon_local() -> LocalTime {
    LocalTime { hour: 12, minute: 0, second: 0 }
}

fn midnight_local() -> LocalTime {
    LocalTime { hour: 0, minute: 0, second: 0 }
}

fn color(color: Color) -> ratatui::style::Color {
    match color {
        Color::White => ratatui::style::Color::White,
        Color::DarkGray => ratatui::style::Color::DarkGray,
        Color::Yellow => ratatui::style::Color::Yellow,
        Color::LightYellow => ratatui::style::Color::LightYellow,
        Color::Cyan => ratatui::style::Color::Cyan,
    }
}

fn style(style: Style) -> TerminalStyle {
    let mut set = TerminalStyle::default();
    if let Some(fg) = style.fg {
        set = set.fg(color(fg));
    }
    if let Some(bg) = style.bg {
        set = set.bg(color(bg));
    }
    if style.bold {
        set = set.add_modifier(Modifier::BOLD);
    }
    if style.reversed {
        set = set.add_modifier(Modifier::REVERSED);
    }
    set
}

fn line(spans: &[Span]) -> Line<'_> {
    Line::from(
        spans
            .iter()
            .map(|span| TerminalSpan::styled(span.content.as_str(), style(span.style)))
            .collect::<Vec<_>>(),
    )
}

fn rect(area: &Area) -> Rect {
    Rect { x: area.x, y: area.y, width: area.width, height: area.height }
}

fn draw(frame: &mut Frame, drawings: &[Drawing]) {
    for drawing in drawings {
        match drawing {
            Drawing::Base { area, color: fg } => frame.render_widget(
                Block::default().style(TerminalStyle::default().fg(color(*fg))),
                rect(area),
            ),
            Drawing::Panel { area, title } => frame.render_widget(
                Block::default()
                    .title(TerminalSpan::styled(title.content.as_str(), style(title.style)))
                    .borders(Borders::ALL)
                    .border_type(BorderType::Rounded)
                    .border_style(TerminalStyle::default().fg(color(BORDER)))
                    .style(TerminalStyle::default().fg(color(TEXT))),
                rect(area),
            ),
            Drawing::Rule { area } => frame.render_widget(
                Block::default()
                    .borders(Borders::BOTTOM)
                    .border_style(TerminalStyle::default().fg(color(BORDER))),
                rect(area),
            ),
            Drawing::Text { area, line: spans, align, wrap } => {
                let mut paragraph = Paragraph::new(line(spans)).alignment(match align {
                    Align::Left => Alignment::Left,
                    Align::Center => Alignment::Center,
                    Align::Right => Alignment::Right,
                });
                if *wrap {
                    paragraph = paragraph.wrap(Wrap { trim: true });
                }
                frame.render_widget(paragraph, rect(area));
            }
            Drawing::Gauge { area, percent, label, color: filled } => frame.render_widget(
                LineGauge::default()
                    .ratio(*percent as f64 / 100.0)
                    .label(label.as_str())
                    .filled_symbol("█")
                    .unfilled_symbol("░")
                    .filled_style(TerminalStyle::default().fg(color(*filled)))
                    .unfilled_style(TerminalStyle::default().fg(color(BORDER))),
                rect(area),
            ),
            Drawing::Rows { area, lines, selected } => {
                let items: Vec<ListItem> =
                    lines.iter().map(|spans| ListItem::new(line(spans))).collect();
                let mut state = ListState::default().with_selected(*selected);
                frame.render_stateful_widget(
                    List::new(items)
                        .highlight_symbol("→ ")
                        .highlight_spacing(HighlightSpacing::Always)
                        .highlight_style(
                            TerminalStyle::default()
                                .fg(color(TEXT))
                                .add_modifier(Modifier::BOLD),
                        ),
                    rect(area),
                    &mut state,
                );
            }
        }
    }
}

fn terminal_with(app: &App, width: u16, height: u16) -> Terminal<TestBackend> {
    let mut terminal = Terminal::new(TestBackend::new(width, height)).unwrap();
    terminal
        .draw(|frame| {
            let area = frame.area();
            let area =
                Area { x: area.x, y: area.y, width: area.width, height: area.height };
            let text = |value: Coordinate| format!("{:.2}", f64::from_bits(value.bits));
            let schedule = &app.state.settings.schedule;
            let drawings = render(
                app,
                area,
                noon_local(),
                SKY,
                &text(schedule.latitude),
                &text(schedule.longitude),
            );
            draw(frame, &drawings);
        })
        .unwrap();
    terminal
}

fn test_state(settings: Settings) -> RuntimeState {
    RuntimeState {
        settings,
        outputs: vec!["DP-1".into()],
        backend: "test".into(),
        active_warmth: 50,
        active_brightness: 90,
        conflict: None,
    }
}

fn test_app(settings: Settings) -> App {
    App::new(test_state(settings), false, 0)
}

fn buffer_text(terminal: &Terminal<TestBackend>) -> String {
    terminal.backend().buffer().content().iter().map(|cell| cell.symbol()).collect()
}

#[test]
fn values_clamp_and_times_wrap() {
    let mut percentage = 98;
    adjust_percent(&mut percentage, 1, 5, 0);
    assert_eq!(percentage, 100);
    adjust_percent(&mut percentage, -1, 95, 10);
    assert_eq!(percentage, 10);
    let mut time = "23:55".to_owned();
    adjust_time(&mut time, 1, 15);
    assert_eq!(time, "00:10");
}

#[test]
fn manual_adjustments_enable_manual_filtering() {
    let mut settings = Settings { enabled: false, automatic: true, ..Settings::default() };
    let manual = manual_levels(&mut settings);
    adjust_percent(&mut manual.warmth, 1, 5, 0);

    assert!(settings.enabled);
    assert!(!settings.automatic);
    assert_eq!(settings.manual.warmth, 55);
    assert_eq!(settings.manual.brightness, 90);
    assert_eq!(current_levels(&settings, noon_local(), SKY).unwrap(), settings.manual);
}

#[test]
fn filter_changes_preserve_the_selected_mode() {
    let mut settings = Settings { enabled: true, automatic: true, ..Settings::default() };

    toggle_filter(&mut settings);
    assert!(!settings.enabled);
    assert!(settings.automatic);

    set_filter(&mut settings, true);
    assert!(settings.enabled);
    assert!(settings.automatic);
}

#[test]
fn tui_backend_status_distinguishes_service_temporary_and_unavailable() {
    assert_eq!(backend_status(false, true), "ONLINE");
    assert_eq!(backend_status(true, true), "TEMPORARY");
    assert_eq!(backend_status(false, false), "OFFLINE");
    assert_eq!(backend_status(true, false), "OFFLINE");
}

#[test]
fn tui_timeline_segments_match_default_schedule() {
    let schedule = Schedule::default();
    let view = TimelineView::from_schedule(&schedule, noon_local(), SKY).unwrap();

    // Midday is day.
    assert_eq!(view.phase_at(12 * 60), TimelinePhase::Day);
    // During evening fade (21:00–21:30).
    assert_eq!(view.phase_at(21 * 60 + 10), TimelinePhase::EveningFade);
    // Late night is night.
    assert_eq!(view.phase_at(23 * 60), TimelinePhase::Night);
    // Early morning still night.
    assert_eq!(view.phase_at(2 * 60), TimelinePhase::Night);
    // Morning fade (07:00–07:30).
    assert_eq!(view.phase_at(7 * 60 + 10), TimelinePhase::MorningFade);
    // After morning fade is day.
    assert_eq!(view.phase_at(8 * 60), TimelinePhase::Day);
}

#[test]
fn tui_timeline_supports_instant_transitions() {
    let schedule = Schedule { transition_minutes: 0, ..Schedule::default() };
    let view = TimelineView::from_schedule(&schedule, midnight_local(), SKY).unwrap();
    assert_eq!(view.phase_at(21 * 60), TimelinePhase::Night);
    assert_eq!(view.phase_at(7 * 60), TimelinePhase::Day);
    assert_eq!(view.phase_at(6 * 60 + 59), TimelinePhase::Night);
}

#[test]
fn tui_timeline_covers_full_day_without_gaps() {
    let segments = build_timeline_segments(7 * 60, 21 * 60, 30);
    assert!(!segments.is_empty());
    assert_eq!(segments.first().unwrap().start, 0);
    assert_eq!(segments.last().unwrap().end, MINUTES_PER_DAY);
    for window in segments.windows(2) {
        assert_eq!(window[0].end, window[1].start);
    }
    let covered: u16 = segments.iter().map(|s| s.end - s.start).sum();
    assert_eq!(covered, MINUTES_PER_DAY);
}

#[test]
fn timeline_bar_includes_now_marker() {
    let schedule = Schedule::default();
    let view = TimelineView::from_schedule(&schedule, noon_local(), SKY).unwrap();
    let line = render_timeline_bar(48, &view, true);
    let text: String = line.iter().map(|span| span.content.as_str()).collect();
    assert_eq!(text.chars().count(), 48);
    // Now is a same-glyph column with a distinct background, not a special icon.
    let now_styled = line.iter().any(|span| {
        span.content == "█" && span.style.bg == Some(COOL) && span.style.fg == Some(NOW)
    });
    assert!(now_styled, "expected color-highlighted now column in bar");
    assert!(!text.contains('◆'));
}

#[test]
fn dashboard_renders_full_and_compact_terminal_states() {
    let app = test_app(Settings::default());

    let rendered = buffer_text(&terminal_with(&app, 120, 40));
    assert!(rendered.contains("WAYWARM"));
    assert!(rendered.contains("Filter"));
    assert!(rendered.contains("MANUAL OVERRIDE"));
    assert!(rendered.contains("Day warmth"));
    assert!(rendered.contains("Night warmth"));
    assert!(rendered.contains("Timing"));
    assert!(rendered.contains("HELP"));
    assert!(rendered.contains("CONTROLS"));
    assert!(rendered.contains("TODAY"));
    assert!(rendered.contains("→ Mode"));
    assert!(!rendered.contains("› Schedule"));

    let rendered = buffer_text(&terminal_with(&app, 80, 24));
    // Compact view scrolls the longer schedule list; top schedule rows stay visible.
    assert!(rendered.contains("Day warmth"));
    assert!(rendered.contains("Night warmth"));
    assert!(rendered.contains("Connected service"));
    assert!(rendered.contains("TODAY"));
    assert!(!rendered.contains("at least"));
    assert!(!rendered.contains("HELP"));

    assert!(buffer_text(&terminal_with(&app, 60, 20)).contains("at least 80 × 24"));
}

#[test]
fn settings_keep_mode_visible_when_filter_is_off() {
    let settings = Settings { enabled: false, automatic: true, ..Settings::default() };
    let app = test_app(settings);
    let rendered = buffer_text(&terminal_with(&app, 80, 24));

    assert!(rendered.contains("AUTOMATIC"));
    assert!(rendered.contains("OFF"));
}

#[test]
fn footer_matches_the_selected_control_type() {
    let mut app = test_app(Settings::default());
    let toggle_footer = buffer_text(&terminal_with(&app, 80, 24));
    assert!(toggle_footer.contains("Toggle"));
    assert!(!toggle_footer.contains("Fine"));

    app.selected = Field::ManualWarmth;
    let adjust_footer = buffer_text(&terminal_with(&app, 80, 24));
    assert!(adjust_footer.contains("Fine"));
    assert!(!adjust_footer.contains("Toggle"));
}

#[test]
fn tui_dashboard_uses_only_the_supported_terminal_colors() {
    let app = test_app(Settings::default());
    let terminal = terminal_with(&app, 120, 40);

    for cell in terminal.backend().buffer().content() {
        assert!(
            matches!(
                cell.fg,
                ratatui::style::Color::Reset
                    | ratatui::style::Color::White
                    | ratatui::style::Color::Yellow
                    | ratatui::style::Color::LightYellow
                    | ratatui::style::Color::Cyan
                    | ratatui::style::Color::Gray
                    | ratatui::style::Color::DarkGray
            ),
            "unexpected fg color: {:?}",
            cell.fg
        );
        assert!(
            matches!(
                cell.bg,
                ratatui::style::Color::Reset
                    | ratatui::style::Color::White
                    | ratatui::style::Color::Yellow
                    | ratatui::style::Color::LightYellow
                    | ratatui::style::Color::Cyan
                    | ratatui::style::Color::Gray
                    | ratatui::style::Color::DarkGray
            ),
            "unexpected bg color: {:?}",
            cell.bg
        );
    }
}

#[test]
fn the_screen_is_divided_into_rows() {
    let compact = screen_areas(Area { x: 1, y: 0, width: 78, height: 24 });
    assert!(compact.compact && compact.help.is_none());
    assert_eq!(compact.header, Area { x: 1, y: 0, width: 78, height: 2 });
    assert_eq!(compact.settings, Area { x: 1, y: 8, width: 78, height: 14 });
    assert_eq!(compact.footer, Area { x: 1, y: 23, width: 78, height: 1 });
    let full = screen_areas(Area { x: 2, y: 0, width: 116, height: 40 });
    assert_eq!(full.metrics, Area { x: 2, y: 4, width: 116, height: 6 });
    assert_eq!(full.help, Some(Area { x: 2, y: 35, width: 116, height: 3 }));
}

#[test]
fn low_screens_are_drawn_in_full() {
    let text = buffer_text(&terminal_with(&test_app(Settings::default()), 80, 24));
    let row = |n: usize| text.chars().skip(n * 80).take(80).collect::<String>();
    assert!(row(0).starts_with("  WAYWARM  ONLINE  DP-1"));
    assert!(row(0).trim_end().ends_with("[ q ] Quit"));
    assert!(row(2).contains(" WARMTH ") && row(2).contains(" BRIGHTNESS "));
    assert!(row(3).contains("50%  ·  4500 K") && row(3).contains("90%"));
    assert!(row(5).contains(" TODAY · day 07:00 · night 21:00 "));
    assert!(row(9).contains("GENERAL"));
    assert!(row(10).contains("→ Mode                  [ AUTOMATIC ]"));
    assert!(row(11).contains("  Filter                [ ON ]"));
    assert!(row(13).contains("  Warmth                ‹ 50%  ·  4500 K ›"));
    assert!(row(22).starts_with("  · Connected service — changes save immediately"));
}

#[test]
fn high_screens_hold_a_legend_and_help() {
    let mut app = test_app(Settings::default());
    app.selected = Field::Transition;
    let text = buffer_text(&terminal_with(&app, 120, 44));
    assert!(text.contains("CURRENT  50%  ·  4500 K"));
    assert!(text.contains("  24h schedule  ·   day   fade   night "));
    assert!(text.contains("  Day begins 07:00   Night begins 21:00   Fade 30 min   Now 12:00"));
    assert!(text.contains("Fade duration. Set how gradually Waywarm moves"));
    assert!(text.contains("→ Fade duration         ‹ 30 min ›"));
    assert!(text.contains("Latitude              [ 0.00° ]"));

    app.state.settings.automatic = false;
    assert!(buffer_text(&terminal_with(&app, 120, 44)).contains(" TODAY · inactive "));
    app.state.settings.schedule.day_start = "x".into();
    assert!(buffer_text(&terminal_with(&app, 120, 44)).contains("Schedule times are invalid"));
    app.state.outputs.clear();
    app.backend_available = false;
    let text = buffer_text(&terminal_with(&app, 120, 44));
    assert!(text.contains(" DAEMON  OFFLINE   OUTPUTS No displays detected"));
}

#[test]
fn bars_show_phases_and_the_present_at_every_width() {
    let view = TimelineView::from_schedule(&Schedule::default(), noon_local(), SKY).unwrap();
    for width in [1usize, 2, 7, 48, 200, 1440, 2000] {
        let line = render_timeline_bar(width, &view, true);
        let columns: Vec<(char, Style)> = line
            .iter()
            .flat_map(|span| span.content.chars().map(|c| (c, span.style)))
            .collect();
        assert_eq!(columns.len(), width);
        for (column, (symbol, style)) in columns.iter().enumerate() {
            let phase = view.phase_at((column * 1440 / width) as u16);
            assert_eq!(symbol.to_string(), phase.glyph());
            assert_eq!(style.bg.is_some(), column == (720 * width / 1440).min(width - 1));
        }
    }
    assert!(render_timeline_bar(0, &view, true).is_empty());
    let muted = render_timeline_bar(10, &view, false);
    assert!(muted
        .iter()
        .all(|span| span.style.fg == Some(Color::DarkGray) || span.style.bg == Some(Color::DarkGray)));
}

#[test]
fn keys_move_and_change_the_selection() {
    let mut app = test_app(Settings::default());
    assert!(matches!(app.handle_key(Key::Char('q'), false, NO_COORDINATE), Effect::Quit));
    assert!(matches!(app.handle_key(Key::Esc, false, NO_COORDINATE), Effect::Quit));
    assert!(matches!(app.handle_key(Key::Char('x'), false, NO_COORDINATE), Effect::Stay));
    for key in [Key::Down, Key::Char('j'), Key::Tab] {
        app.handle_key(key, false, NO_COORDINATE);
    }
    assert_eq!(app.selected, Field::ManualBrightness);
    for key in [Key::Up, Key::Char('k'), Key::BackTab, Key::Up] {
        app.handle_key(key, false, NO_COORDINATE);
    }
    assert_eq!(app.selected, Field::Transition);

    let submitted = |app: &mut App, key, fine, nudged| match app.handle_key(key, fine, nudged) {
        Effect::Submit(settings) => settings,
        other => panic!("expected settings, got {other:?}"),
    };
    assert_eq!(submitted(&mut app, Key::Left, false, NO_COORDINATE).schedule.transition_minutes, 15);
    assert_eq!(
        submitted(&mut app, Key::Char('l'), true, NO_COORDINATE).schedule.transition_minutes,
        31
    );
    assert!(matches!(app.handle_key(Key::Enter, false, NO_COORDINATE), Effect::Stay));

    app.selected = Field::Mode;
    assert!(!submitted(&mut app, Key::Enter, false, NO_COORDINATE).automatic);
    assert!(!submitted(&mut app, Key::Char('h'), false, NO_COORDINATE).automatic);
    assert!(matches!(app.handle_key(Key::Right, false, NO_COORDINATE), Effect::Stay));
    app.selected = Field::Filter;
    assert!(!submitted(&mut app, Key::Char(' '), false, NO_COORDINATE).enabled);
    app.selected = Field::Timing;
    assert_eq!(
        submitted(&mut app, Key::Enter, false, NO_COORDINATE).schedule.timing,
        ScheduleTiming::Location
    );
    app.selected = Field::NightStart;
    assert_eq!(
        submitted(&mut app, Key::Right, false, NO_COORDINATE).schedule.night_start,
        "21:15"
    );
    app.selected = Field::DayBrightness;
    assert_eq!(
        submitted(&mut app, Key::Left, false, NO_COORDINATE).schedule.day.brightness,
        95
    );
    app.selected = Field::ManualWarmth;
    let settings = submitted(&mut app, Key::Right, true, NO_COORDINATE);
    assert_eq!(settings.manual, Levels { warmth: 51, brightness: 90 });
    assert!(!settings.automatic);
    app.selected = Field::Latitude;
    let nudged = Coordinate { bits: 91.0f64.to_bits() };
    assert_eq!(
        submitted(&mut app, Key::Right, false, nudged).schedule.latitude,
        Coordinate { bits: 90.0f64.to_bits() }
    );
}

#[test]
fn times_go_round_the_clock_both_ways() {
    let moved = |text: &str, direction, step| {
        let mut time = text.to_owned();
        adjust_time(&mut time, direction, step);
        time
    };
    assert_eq!(moved("00:05", -1, 15), "23:50");
    assert_eq!(moved("23:59", 1, 1), "00:00");
    assert_eq!(moved("12:00", 1, 1440), "12:00");
    assert_eq!(moved("12:00", -2, 16_000), "06:40");
    assert_eq!(moved("noon", 1, 15), "noon");
    let mut value = NO_COORDINATE;
    adjust_coordinate(&mut value, Coordinate { bits: (-180.5f64).to_bits() }, (180.0f64).to_bits());
    assert_eq!(value, Coordinate { bits: (-180.0f64).to_bits() });
}

#[test]
fn notices_come_and_go() {
    let mut app = test_app(Settings::default());
    assert_eq!(app.notice_text(), ("Connected service — changes save immediately", false));
    app.transient = true;
    assert_eq!(app.notice_text(), ("Temporary session — changes last until exit", false));

    app.finish_edit(Ok(test_state(Settings::default())), 1000);
    assert_eq!(app.notice_text(), ("Settings saved", false));
    app.expire_notice(2999);
    assert_eq!(app.notice_text().0, "Settings saved");
    app.expire_notice(3000);
    assert!(app.notice.is_none());

    assert!(!app.refresh_due(1999));
    assert!(app.refresh_due(2000));
    app.refresh(Err("gone".to_owned()), 2000);
    assert_eq!(app.notice_text(), ("Display backend unavailable: gone", true));
    assert!(!app.backend_available);
    app.expire_notice(1_000_000);
    assert!(app.notice.is_some());
    app.refresh(Ok(test_state(Settings::default())), 3000);
    assert_eq!(app.notice_text(), ("Display backend reconnected", false));
    assert!(app.backend_available);
    app.finish_edit(Err("full".to_owned()), 4000);
    assert_eq!(app.notice_text(), ("Settings not saved: full", true));
    assert_eq!(app.last_refresh, 4000);
}

#[test]
fn fields_of_the_terminal_are_gone_through_in_a_circle() {
    let mut field = Field::Mode;
    for (index, expected) in FIELDS.iter().enumerate() {
        assert_eq!(field, *expected);
        assert_eq!(field.index(), index);
        assert_eq!(field.next().previous(), field);
        assert!(!selected_help(field).1.is_empty());
        field = field.next();
    }
    assert_eq!(field, Field::Mode);
    let rows = |spacious: bool| {
        FIELDS.iter().map(|field| field.row_index(spacious)).collect::<Vec<usize>>()
    };
    assert_eq!(rows(false), vec![1, 2, 4, 5, 7, 8, 9, 10, 11, 12, 13, 14, 15, 16]);
    assert_eq!(rows(true), vec![1, 2, 5, 6, 9, 10, 11, 12, 13, 14, 15, 16, 17, 18]);
}

#[test]
fn texts_are_cut_and_filled() {
    assert_eq!(truncate_with_ellipsis("display", 7), "display");
    assert_eq!(truncate_with_ellipsis("display", 4), "dis…");
    assert_eq!(truncate_with_ellipsis("display", 1), "…");
    assert_eq!(truncate_with_ellipsis("display", 0), "");
    assert_eq!(truncate_with_ellipsis("é·é", 2), "é…");
    assert_eq!(pad("ab", 4), "ab  ");
    assert_eq!(pad("abcde", 4), "abcde");
    assert_eq!(pad_left("ab", 4), "  ab");
    assert_eq!(format_percent(7), "7%");
    assert_eq!(format_warmth(100), "100%  ·  2500 K");
}

#[test]
fn areas_shrink_as_frames_and_margins_take_room() {
    let area = Area { x: 3, y: 4, width: 10, height: 5 };
    assert_eq!(area.framed(), Area { x: 4, y: 5, width: 8, height: 3 });
    assert_eq!(area.ruled(), Area { x: 3, y: 4, width: 10, height: 4 });
    assert_eq!(area.indented(), Area { x: 4, y: 4, width: 8, height: 5 });
    assert_eq!(area.inner(2, 0), Area { x: 5, y: 4, width: 6, height: 5 });
    assert_eq!(area.inner(6, 0), Area { x: 0, y: 0, width: 0, height: 0 });
    let corner = Area { x: 65535, y: 65535, width: 1, height: 0 };
    let block = Block::default().borders(Borders::ALL);
    for area in [area, corner, Area { x: 0, y: 0, width: 0, height: 0 }] {
        let inner = block.inner(rect(&area));
        assert_eq!(rect(&area.framed()), inner);
    }
}
