use ratatui::backend::TestBackend;
use ratatui::layout::{Alignment, Rect};
use ratatui::style::{Modifier, Style as TerminalStyle};
use ratatui::text::{Line, Span as TerminalSpan};
use ratatui::widgets::{
    Block, BorderType, Borders, HighlightSpacing, List, ListItem, ListState, Paragraph, Wrap,
};
use ratatui::{Frame, Terminal};
use waywarm::screen::{Align, Area, Color, Drawing, Span, Style, BORDER, TEXT};
use waywarm::service::{
    ensure_success, retire_legacy_service, status_calls, ServiceManager, ServiceStatus, Step,
    SystemctlCall, SERVICE_NAME,
};
use waywarm::service_tui::{
    completed_text, failed_text, render, Action, ActionEnd, App, Outcome, ACTIONS,
};
use waywarm::tui::Key;

const INSTALLED: ServiceStatus =
    ServiceStatus { installed: true, enabled: true, active: true };
const MISSING: ServiceStatus =
    ServiceStatus { installed: false, enabled: false, active: false };

fn test_manager() -> ServiceManager {
    ServiceManager::discover(Some("/home/u".to_owned())).expect("a home directory was given")
}

fn test_app() -> App {
    App::new(test_manager(), MISSING, 0)
}

fn color(color: Color) -> ratatui::style::Color {
    match color {
        Color::White => ratatui::style::Color::White,
        Color::DarkGray => ratatui::style::Color::DarkGray,
        Color::Yellow => ratatui::style::Color::Yellow,
        Color::LightYellow => ratatui::style::Color::LightYellow,
        Color::Cyan => ratatui::style::Color::Cyan,
    }
}

fn style(style: Style) -> TerminalStyle {
    let mut set = TerminalStyle::default();
    if let Some(fg) = style.fg {
        set = set.fg(color(fg));
    }
    if let Some(bg) = style.bg {
        set = set.bg(color(bg));
    }
    if style.bold {
        set = set.add_modifier(Modifier::BOLD);
    }
    if style.reversed {
        set = set.add_modifier(Modifier::REVERSED);
    }
    set
}

fn line(spans: &[Span]) -> Line<'_> {
    Line::from(
        spans
            .iter()
            .map(|span| TerminalSpan::styled(span.content.as_str(), style(span.style)))
            .collect::<Vec<_>>(),
    )
}

fn rect(area: &Area) -> Rect {
    Rect { x: area.x, y: area.y, width: area.width, height: area.height }
}

fn draw(frame: &mut Frame, drawings: &[Drawing]) {
    for drawing in drawings {
        match drawing {
            Drawing::Base { area, color: fg } => frame.render_widget(
                Block::default().style(TerminalStyle::default().fg(color(*fg))),
                rect(area),
            ),
            Drawing::Panel { area, title } => frame.render_widget(
                Block::default()
                    .title(TerminalSpan::styled(title.content.as_str(), style(title.style)))
                    .borders(Borders::ALL)
                    .border_type(BorderType::Rounded)
                    .border_style(TerminalStyle::default().fg(color(BORDER)))
                    .style(TerminalStyle::default().fg(color(TEXT))),
                rect(area),
            ),
            Drawing::Rule { area } => frame.render_widget(
                Block::default()
                    .borders(Borders::BOTTOM)
                    .border_style(TerminalStyle::default().fg(color(BORDER))),
                rect(area),
            ),
            Drawing::Text { area, line: spans, align, wrap } => {
                let mut paragraph = Paragraph::new(line(spans)).alignment(match align {
                    Align::Left => Alignment::Left,
                    Align::Center => Alignment::Center,
                    Align::Right => Alignment::Right,
                });
                if *wrap {
                    paragraph = paragraph.wrap(Wrap { trim: true });
                }
                frame.render_widget(paragraph, rect(area));
            }
            Drawing::Gauge { .. } => panic!("the service has no gauges"),
            Drawing::Rows { area, lines, selected } => {
                let items: Vec<ListItem> =
                    lines.iter().map(|spans| ListItem::new(line(spans))).collect();
                let mut state = ListState::default().with_selected(*selected);
                frame.render_stateful_widget(
                    List::new(items)
                        .highlight_symbol("→ ")
                        .highlight_spacing(HighlightSpacing::Always)
                        .highlight_style(
                            TerminalStyle::default()
                                .fg(color(TEXT))
                                .add_modifier(Modifier::BOLD),
                        ),
                    rect(area),
                    &mut state,
                );
            }
        }
    }
}

fn terminal_with(app: &App, width: u16, height: u16) -> Terminal<TestBackend> {
    let mut terminal = Terminal::new(TestBackend::new(width, height)).unwrap();
    terminal
        .draw(|frame| {
            let area = frame.area();
            let area =
                Area { x: area.x, y: area.y, width: area.width, height: area.height };
            draw(frame, &render(app, area));
        })
        .unwrap();
    terminal
}

fn buffer_text(terminal: &Terminal<TestBackend>) -> String {
    terminal.backend().buffer().content().iter().map(|cell| cell.symbol()).collect()
}

fn call_text(call: &SystemctlCall) -> String {
    format!("{} ? {:?}", call.arguments.join(" "), call.on_failure)
}

fn step_text(step: &Step) -> String {
    match step {
        Step::Call(call) => call_text(call),
        other => format!("{other:?}"),
    }
}

#[test]
fn installation_labels_cover_service_states() {
    assert_eq!(
        ServiceStatus { installed: false, enabled: false, active: false }.installation_label(),
        "Not installed"
    );
    assert_eq!(
        ServiceStatus { installed: true, enabled: true, active: true }.installation_label(),
        "Installed • enabled"
    );
}

#[test]
fn action_help_covers_every_entry() {
    for action in ACTIONS {
        assert!(!action.help().is_empty(), "{:?} missing help", action.label());
    }
}

#[test]
fn service_dashboard_renders_chrome_and_actions() {
    let mut app = test_app();
    app.status = ServiceStatus { installed: true, enabled: true, active: true };

    let rendered = buffer_text(&terminal_with(&app, 80, 24));

    assert!(rendered.contains("WAYWARM"));
    assert!(rendered.contains("service"));
    assert!(rendered.contains("STATUS"));
    assert!(rendered.contains("ACTIONS"));
    assert!(rendered.contains("HELP"));
    assert!(rendered.contains("Install or update and start"));
    assert!(rendered.contains("RUNNING") || rendered.contains("STOPPED"));
    assert!(rendered.contains("→ Install") || rendered.contains("Install or update"));
}

#[test]
fn small_terminals_show_minimum_size_message() {
    let app = test_app();
    assert!(buffer_text(&terminal_with(&app, 50, 12)).contains("at least 60 × 18"));
}

#[test]
fn uninstall_confirm_is_visible_in_notice() {
    let mut app = test_app();
    app.status = ServiceStatus { installed: true, enabled: false, active: false };
    app.selected = ACTIONS.iter().position(|action| *action == Action::Uninstall).unwrap();
    app.confirm_uninstall = true;
    app.set_message(
        "Press Enter again to uninstall the service and installed binary".into(),
        true,
    );

    let rendered = buffer_text(&terminal_with(&app, 80, 24));
    assert!(rendered.contains("confirm?"));
    assert!(rendered.contains("Press Enter again"));
}

#[test]
fn service_tui_dashboard_uses_only_the_supported_terminal_colors() {
    let mut app = test_app();
    app.status = ServiceStatus { installed: true, enabled: true, active: false };
    let terminal = terminal_with(&app, 80, 24);

    for cell in terminal.backend().buffer().content() {
        assert!(
            matches!(
                cell.fg,
                ratatui::style::Color::Reset
                    | ratatui::style::Color::White
                    | ratatui::style::Color::Yellow
                    | ratatui::style::Color::LightYellow
                    | ratatui::style::Color::Cyan
                    | ratatui::style::Color::Gray
                    | ratatui::style::Color::DarkGray
            ),
            "unexpected fg color: {:?}",
            cell.fg
        );
        assert!(
            matches!(
                cell.bg,
                ratatui::style::Color::Reset
                    | ratatui::style::Color::White
                    | ratatui::style::Color::Yellow
                    | ratatui::style::Color::LightYellow
                    | ratatui::style::Color::Cyan
                    | ratatui::style::Color::Gray
                    | ratatui::style::Color::DarkGray
            ),
            "unexpected bg color: {:?}",
            cell.bg
        );
    }
}

#[test]
fn start_requires_install_but_install_does_not() {
    assert!(Action::Start.requires_install());
    assert!(Action::Stop.requires_install());
    assert!(!Action::Install.requires_install());
    assert!(!Action::Quit.requires_install());
}

#[test]
fn the_service_is_found_in_the_home_directory() {
    let manager = test_manager();
    assert_eq!(manager.binary_path(), "/home/u/.local/bin/waywarm");
    assert_eq!(manager.unit_path(), "/home/u/.config/systemd/user/waywarm.service");
    assert_eq!(manager.clone().unit_path(), manager.unit_path());
    assert_eq!(ServiceManager::discover(None).unwrap_err().message(), "HOME is not set");
    assert_eq!(
        manager.status(true, false, true, false),
        ServiceStatus { installed: false, enabled: true, active: false }
    );
    assert!(manager.status(true, true, false, false).installed);
    assert_eq!(
        ServiceStatus { installed: true, enabled: false, active: true }.installation_label(),
        "Installed • disabled"
    );
}

#[test]
fn actions_take_their_steps() {
    let manager = test_manager();
    let steps = |action: Action, status| {
        action
            .run(&manager, status)
            .map(|steps| steps.iter().map(step_text).collect::<Vec<String>>())
            .map_err(|error| error.message())
    };
    assert_eq!(
        steps(Action::Install, MISSING).unwrap(),
        vec![
            "RetireLegacy",
            "InstallBinary",
            "WriteUnit",
            "ImportEnvironment",
            "daemon-reload ? Some(\"systemctl --user daemon-reload\")",
            "enable waywarm.service ? Some(\"systemctl --user enable waywarm.service\")",
            "restart waywarm.service ? Some(\"systemctl --user restart waywarm.service\")",
        ]
    );
    assert_eq!(
        steps(Action::Start, INSTALLED).unwrap(),
        vec![
            "RetireLegacy",
            "ImportEnvironment",
            "start waywarm.service ? Some(\"systemctl --user start waywarm.service\")",
        ]
    );
    assert_eq!(
        steps(Action::Restart, INSTALLED).unwrap(),
        vec![
            "RetireLegacy",
            "ImportEnvironment",
            "restart waywarm.service ? Some(\"systemctl --user restart waywarm.service\")",
        ]
    );
    assert_eq!(
        steps(Action::Stop, INSTALLED).unwrap(),
        vec!["stop waywarm.service ? Some(\"systemctl --user stop waywarm.service\")"]
    );
    assert_eq!(
        steps(Action::Uninstall, MISSING).unwrap(),
        vec![
            "disable --now waywarm.service ? None",
            "RemoveUnit",
            "RemoveBinary",
            "daemon-reload ? Some(\"systemctl --user daemon-reload\")",
            "reset-failed waywarm.service ? None",
        ]
    );
    for action in [Action::Start, Action::Stop, Action::Restart] {
        assert_eq!(
            steps(action, MISSING).unwrap_err(),
            "the background service is not installed"
        );
    }
}

#[test]
fn the_service_manager_is_called_as_needed() {
    let manager = test_manager();
    assert!(manager.import_wayland_environment(false, false, false).is_none());
    assert_eq!(
        call_text(&manager.import_wayland_environment(true, false, true).unwrap()),
        "import-environment WAYLAND_DISPLAY XDG_RUNTIME_DIR ? \
         Some(\"failed to import the Wayland environment\")"
    );
    assert!(retire_legacy_service(false, false).is_none());
    for (active, enabled) in [(true, false), (false, true), (true, true)] {
        assert_eq!(
            call_text(&retire_legacy_service(active, enabled).unwrap()),
            "disable --now simplered.service ? \
             Some(\"failed to retire the legacy SimpleRed service\")"
        );
    }
    let (active, enabled) = status_calls(SERVICE_NAME);
    assert_eq!(call_text(&active), "is-active --quiet waywarm.service ? None");
    assert_eq!(call_text(&enabled), "is-enabled --quiet waywarm.service ? None");
    assert!(ensure_success(&active, false, "no").is_ok());
    let call = retire_legacy_service(true, true).unwrap();
    assert!(ensure_success(&call, true, "noise").is_ok());
    assert_eq!(
        ensure_success(&call, false, " no bus\n").unwrap_err().message(),
        "failed to retire the legacy SimpleRed service: no bus"
    );
}

#[test]
fn keys_choose_and_start_actions() {
    let mut app = test_app();
    assert_eq!(app.message, "Choose an action and press Enter");
    assert_eq!(app.handle_key(Key::Up, 0), Outcome::Stay);
    assert_eq!(ACTIONS[app.selected], Action::Quit);
    assert_eq!(app.handle_key(Key::Enter, 0), Outcome::Quit);
    assert_eq!(app.handle_key(Key::Down, 0), Outcome::Stay);
    assert_eq!(app.handle_key(Key::Char('l'), 0), Outcome::Stay);
    assert_eq!(app.handle_key(Key::Char(' '), 5), Outcome::Run(Action::Install));
    assert_eq!(app.message, "Install or update and start…");
    assert!(app.pending && app.last_refresh == 5);
    assert_eq!(app.handle_key(Key::Enter, 6), Outcome::Stay);
    assert_eq!(app.message, "A service action is already running");
    assert_eq!(app.handle_key(Key::Char('q'), 6), Outcome::Stay);
    assert_eq!(app.message, "Wait for the current service action to finish");
    assert!(!app.refresh_due(1_000_000));

    app.finish_action(ActionEnd::Done(completed_text(Action::Install)), INSTALLED, 9);
    assert_eq!(app.message, "Install or update and start completed");
    assert!(!app.message_error && !app.pending && app.status == INSTALLED);
    assert!(!app.refresh_due(2008) && app.refresh_due(2009));
    app.refresh(MISSING, 3000);
    assert!(app.status == MISSING && app.last_refresh == 3000);
    assert_eq!(app.handle_key(Key::Esc, 9), Outcome::Quit);

    app.finish_action(ActionEnd::Failed(failed_text("no")), INSTALLED, 10);
    assert_eq!((app.message.as_str(), app.message_error), ("Action failed: no", true));
    app.finish_action(ActionEnd::Lost, MISSING, 11);
    assert_eq!(app.message, "Service action ended without a result");
    assert!(app.status == INSTALLED && app.last_refresh == 10);
}

#[test]
fn uninstalling_has_to_be_confirmed() {
    let mut app = test_app();
    app.selected = 4;
    assert_eq!(app.handle_key(Key::Enter, 0), Outcome::Stay);
    assert!(app.confirm_uninstall && app.message_error);
    app.handle_key(Key::Up, 0);
    assert!(!app.confirm_uninstall);
    app.handle_key(Key::Down, 0);
    assert_eq!(app.handle_key(Key::Enter, 0), Outcome::Stay);
    assert_eq!(app.handle_key(Key::Enter, 0), Outcome::Run(Action::Uninstall));
    assert!(!app.confirm_uninstall);
}

#[test]
fn the_screen_of_the_service_is_drawn_in_full() {
    let mut app = test_app();
    app.status = INSTALLED;
    let text = buffer_text(&terminal_with(&app, 80, 24));
    assert!(text.contains(" WAYWARM · service "));
    assert!(text.contains("Daemon   RUNNING    INSTALLED    ENABLED "));
    assert!(text.contains("Binary  /home/u/.local/bin/waywarm"));
    assert!(text.contains("Unit    /home/u/.config/systemd/user/waywarm.service"));
    assert!(text.contains("Install or update and start. Copy the binary"));
    assert!(text.contains(" · Choose an action and press Enter"));
    app.pending = true;
    app.selected = 1;
    let text = buffer_text(&terminal_with(&app, 80, 24));
    assert!(text.contains("→ Start  …"));
    assert!(text.contains(" … Choose an action and press Enter"));
    app.status = MISSING;
    let text = buffer_text(&terminal_with(&app, 100, 30));
    assert!(text.contains("Daemon   STOPPED    NOT INSTALLED    — "));
}
