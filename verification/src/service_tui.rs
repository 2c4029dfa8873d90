//! The interface of the background service in a terminal: what its keys do and what it shows.

use vstd::prelude::*;

use crate::error::{fault, Error, ErrorKind};
use crate::screen::{
    above_rule, across, along, bold, centred, colored, division, draw_all, drawing_views, extent,
    floored_difference, header_columns, help_box, in_a_row, in_bold, in_color, in_reverse,
    is_stack, key_chip, key_piece, lemma_columns, lemma_single_rows, lies_within, line_view,
    lines_view, muted, owned_span, panel, panel_at, part_at, piece, quit_line, quit_reminder, raw,
    render_help, render_too_small, reverse, single_rows, span, split, stacked, taken_before,
    text_at, text_line, too_small, truncate_with_ellipsis, truncated, unstyled, within_frame,
    within_margin, Align, Area, Color, Drawing, DrawingView, Limit, Span, SpanView, ACCENT, COOL,
    MUTED, TEXT, WARM,
};
use crate::service::{
    calls, install_steps, running_steps, starting_ends_with_the_service_told, step_views,
    stop_steps, uninstall_steps, ServiceManager, ServicePaths, ServiceStatus, Step, StepView,
};
use crate::tui::{command_of, read_key, Command, Key};

verus! {

// ── actions ──────────────────────────────────────────────────────────────────

/// What can be done with the service.
#[derive(Clone, Copy, Debug, PartialEq, Eq, Structural)]
pub enum Action {
    Install,
    Start,
    Stop,
    Restart,
    Uninstall,
    Quit,
}

/// The actions in the order in which they are shown.
pub const ACTIONS: [Action; 6] = [
    Action::Install,
    Action::Start,
    Action::Stop,
    Action::Restart,
    Action::Uninstall,
    Action::Quit,
];

/// The name of an action.
pub open spec fn action_label(action: Action) -> Seq<char> {
    match action {
        Action::Install => "Install or update and start"@,
        Action::Start => "Start"@,
        Action::Stop => "Stop"@,
        Action::Restart => "Restart"@,
        Action::Uninstall => "Uninstall"@,
        Action::Quit => "Quit"@,
    }
}

/// The help of an action.
pub open spec fn action_help(action: Action) -> Seq<char> {
    match action {
        Action::Install => "Copy the binary, install the user unit, enable it, and start the daemon."@,
        Action::Start => "Start the installed user service if it is not already running."@,
        Action::Stop => "Stop the running daemon without removing the installation."@,
        Action::Restart => "Restart the daemon and refresh imported Wayland environment variables."@,
        Action::Uninstall => "Stop the service, remove the user unit and installed binary. Requires confirmation."@,
        Action::Quit => "Leave the service manager and return to the shell."@,
    }
}

/// Whether an action is for an installed service only.
pub open spec fn needs_install(action: Action) -> bool {
    action == Action::Start || action == Action::Stop || action == Action::Restart || action
        == Action::Uninstall
}

/// Whether an action is done in a status of the service. Removing the service is done in any: it
/// clears up what may be left.
pub open spec fn may_run(action: Action, status: ServiceStatus) -> bool {
    status.installed || action == Action::Install || action == Action::Uninstall
}

/// The steps that an action takes.
pub open spec fn action_steps(action: Action) -> Seq<StepView> {
    match action {
        Action::Install => install_steps(),
        Action::Start => running_steps("start"@),
        Action::Stop => stop_steps(),
        Action::Restart => running_steps("restart"@),
        Action::Uninstall | Action::Quit => uninstall_steps(),
    }
}

impl Action {
    /// The name of the action.
    pub fn label(self) -> (label: &'static str)
        ensures
            label@ == action_label(self),
    {
        match self {
            Action::Install => "Install or update and start",
            Action::Start => "Start",
            Action::Stop => "Stop",
            Action::Restart => "Restart",
            Action::Uninstall => "Uninstall",
            Action::Quit => "Quit",
        }
    }

    /// The help of the action.
    pub fn help(self) -> (help: &'static str)
        ensures
            help@ == action_help(self),
    {
        match self {
            Action::Install => "Copy the binary, install the user unit, enable it, and start the daemon.",
            Action::Start => "Start the installed user service if it is not already running.",
            Action::Stop => "Stop the running daemon without removing the installation.",
            Action::Restart => "Restart the daemon and refresh imported Wayland environment variables.",
            Action::Uninstall => "Stop the service, remove the user unit and installed binary. Requires confirmation.",
            Action::Quit => "Leave the service manager and return to the shell.",
        }
    }

    /// Whether the action is for an installed service only.
    pub fn requires_install(self) -> (r: bool)
        ensures
            r == needs_install(self),
    {
        matches!(self, Action::Start | Action::Stop | Action::Restart | Action::Uninstall)
    }

    /// The steps that the action takes, given the status of the service. Quitting is no action on
    /// the service.
    pub fn run(self, manager: &ServiceManager, status: ServiceStatus) -> (steps: Result<
        Vec<Step>,
        Error,
    >)
        requires
            self != Action::Quit,
        ensures
            match steps {
                Ok(s) => may_run(self, status) && step_views(s@) == action_steps(self),
                Err(error) => !may_run(self, status) && error@ == fault(ErrorKind::NotInstalled),
            },
    {
        match self {
            Action::Install => Ok(manager.install_and_start()),
            Action::Start => manager.start(status),
            Action::Stop => manager.stop(status),
            Action::Restart => manager.restart(status),
            Action::Uninstall | Action::Quit => Ok(manager.uninstall()),
        }
    }
}

/// What is said of an action that was done.
pub fn completed_text(action: Action) -> (text: String)
    ensures
        text@ == action_label(action) + " completed"@,
{
    let mut text: String = action.label().to_owned();
    text.append(" completed");
    text
}

/// What is said of an action that failed.
pub fn failed_text(error: &str) -> (text: String)
    ensures
        text@ == "Action failed: "@ + error@,
{
    let mut text: String = "Action failed: ".to_owned();
    text.append(error);
    text
}

// ── state ────────────────────────────────────────────────────────────────────

/// How often the status of the service is looked up, in milliseconds.
pub const STATUS_MILLISECONDS: u64 = 2000;

/// The state of the interface. Times are in milliseconds on its clock.
#[derive(Debug)]
pub struct App {
    pub manager: ServiceManager,
    pub status: ServiceStatus,
    pub selected: usize,
    pub message: String,
    pub message_error: bool,
    pub confirm_uninstall: bool,
    pub pending: bool,
    pub last_refresh: u64,
}

/// The state of the interface, with texts as sequences of characters.
pub struct AppView {
    pub paths: ServicePaths,
    pub status: ServiceStatus,
    pub selected: int,
    pub message: Seq<char>,
    pub message_error: bool,
    pub confirm_uninstall: bool,
    pub pending: bool,
    pub last_refresh: u64,
}

impl View for App {
    type V = AppView;

    open spec fn view(&self) -> AppView {
        AppView {
            paths: self.manager@,
            status: self.status,
            selected: self.selected as int,
            message: self.message@,
            message_error: self.message_error,
            confirm_uninstall: self.confirm_uninstall,
            pending: self.pending,
            last_refresh: self.last_refresh,
        }
    }
}

impl AppView {
    /// Whether one of the actions is selected.
    pub open spec fn valid(self) -> bool {
        0 <= self.selected < 6
    }

    /// The action that is selected.
    pub open spec fn action(self) -> Action {
        ACTIONS@[self.selected]
    }
}

/// What comes of a key.
#[derive(Clone, Copy, Debug, PartialEq, Eq, Structural)]
pub enum Outcome {
    /// The interface ends.
    Quit,
    /// Nothing more is to be done.
    Stay,
    /// An action is to be done.
    Run(Action),
}

/// What the selected action comes to. While one runs no other is started, and removing the service
/// has to be asked for twice.
pub open spec fn activated(app: AppView, now: u64) -> (AppView, Outcome) {
    if app.pending {
        (
            AppView {
                message: "A service action is already running"@,
                message_error: true,
                ..app
            },
            Outcome::Stay,
        )
    } else if app.action() == Action::Quit {
        (app, Outcome::Quit)
    } else if app.action() == Action::Uninstall && !app.confirm_uninstall {
        (
            AppView {
                confirm_uninstall: true,
                message: "Press Enter again to uninstall the service and installed binary"@,
                message_error: true,
                ..app
            },
            Outcome::Stay,
        )
    } else {
        (
            AppView {
                confirm_uninstall: false,
                message: action_label(app.action()) + "…"@,
                message_error: false,
                pending: true,
                last_refresh: now,
                ..app
            },
            Outcome::Run(app.action()),
        )
    }
}

/// What a key comes to.
pub open spec fn after_key(app: AppView, key: Key, now: u64) -> (AppView, Outcome) {
    match command_of(key) {
        Command::Quit => if app.pending {
            (
                AppView {
                    message: "Wait for the current service action to finish"@,
                    message_error: true,
                    ..app
                },
                Outcome::Stay,
            )
        } else {
            (app, Outcome::Quit)
        },
        Command::Previous => (
            AppView { selected: (app.selected + 5) % 6, confirm_uninstall: false, ..app },
            Outcome::Stay,
        ),
        Command::Next => (
            AppView { selected: (app.selected + 1) % 6, confirm_uninstall: false, ..app },
            Outcome::Stay,
        ),
        Command::Toggle => activated(app, now),
        _ => (app, Outcome::Stay),
    }
}

/// How an action ended.
#[derive(Debug)]
pub enum ActionEnd {
    /// It was done, with a text to show.
    Done(String),
    /// It failed, with a text to show.
    Failed(String),
    /// It ended without a word.
    Lost,
}

impl App {
    /// The interface at its start.
    pub fn new(manager: ServiceManager, status: ServiceStatus, now: u64) -> (app: Self)
        ensures
            app@ == (AppView {
                paths: manager@,
                status,
                selected: 0,
                message: "Choose an action and press Enter"@,
                message_error: false,
                confirm_uninstall: false,
                pending: false,
                last_refresh: now,
            }),
    {
        App {
            manager,
            status,
            selected: 0,
            message: "Choose an action and press Enter".to_owned(),
            message_error: false,
            confirm_uninstall: false,
            pending: false,
            last_refresh: now,
        }
    }

    /// Takes a key in.
    pub fn handle_key(&mut self, key: Key, now: u64) -> (outcome: Outcome)
        requires
            old(self)@.valid(),
        ensures
            (final(self)@, outcome) == after_key(old(self)@, key, now),
            final(self)@.valid(),
    {
        match read_key(key) {
            Command::Quit => {
                if !self.pending {
                    return Outcome::Quit;
                }
                self.set_message("Wait for the current service action to finish".to_owned(), true);
                Outcome::Stay
            },
            Command::Previous => {
                self.selected = (self.selected + 5) % 6;
                self.confirm_uninstall = false;
                Outcome::Stay
            },
            Command::Next => {
                self.selected = (self.selected + 1) % 6;
                self.confirm_uninstall = false;
                Outcome::Stay
            },
            Command::Toggle => self.activate(now),
            _ => Outcome::Stay,
        }
    }

    /// Shows a message.
    pub fn set_message(&mut self, message: String, error: bool)
        ensures
            final(self)@ == (AppView { message: message@, message_error: error, ..old(self)@ }),
    {
        self.message = message;
        self.message_error = error;
    }

    /// Starts the selected action, or says why it is not started.
    pub fn activate(&mut self, now: u64) -> (outcome: Outcome)
        requires
            old(self)@.valid(),
        ensures
            (final(self)@, outcome) == activated(old(self)@, now),
            final(self)@.valid(),
    {
        if self.pending {
            self.set_message("A service action is already running".to_owned(), true);
            return Outcome::Stay;
        }
        let actions: [Action; 6] = ACTIONS;
        let action: Action = actions[self.selected];
        if action == Action::Quit {
            return Outcome::Quit;
        }
        if action == Action::Uninstall && !self.confirm_uninstall {
            self.confirm_uninstall = true;
            self.set_message(
                "Press Enter again to uninstall the service and installed binary".to_owned(),
                true,
            );
            return Outcome::Stay;
        }
        self.confirm_uninstall = false;
        let mut message: String = action.label().to_owned();
        message.append("…");
        self.set_message(message, false);
        self.pending = true;
        self.last_refresh = now;
        Outcome::Run(action)
    }

    /// Takes in how an action ended, with the status of the service behind it.
    pub fn finish_action(&mut self, end: ActionEnd, status: ServiceStatus, now: u64)
        ensures
            final(self)@ == (match end {
                ActionEnd::Done(message) => AppView {
                    message: message@,
                    message_error: false,
                    pending: false,
                    status,
                    last_refresh: now,
                    ..old(self)@
                },
                ActionEnd::Failed(message) => AppView {
                    message: message@,
                    message_error: true,
                    pending: false,
                    status,
                    last_refresh: now,
                    ..old(self)@
                },
                ActionEnd::Lost => AppView {
                    message: "Service action ended without a result"@,
                    message_error: true,
                    pending: false,
                    ..old(self)@
                },
            }),
    {
        match end {
            ActionEnd::Done(message) => {
                self.set_message(message, false);
                self.status = status;
                self.last_refresh = now;
            },
            ActionEnd::Failed(message) => {
                self.set_message(message, true);
                self.status = status;
                self.last_refresh = now;
            },
            ActionEnd::Lost => {
                self.set_message("Service action ended without a result".to_owned(), true);
            },
        }
        self.pending = false;
    }

    /// Whether it is time to look the status of the service up again.
    pub fn refresh_due(&self, now: u64) -> (due: bool)
        ensures
            due == (!self@.pending && now - self@.last_refresh >= STATUS_MILLISECONDS),
    {
        !self.pending && now >= self.last_refresh && now - self.last_refresh >= STATUS_MILLISECONDS
    }

    /// Takes in the status of the service.
    pub fn refresh(&mut self, status: ServiceStatus, now: u64)
        ensures
            final(self)@ == (AppView { status, last_refresh: now, ..old(self)@ }),
    {
        self.status = status;
        self.last_refresh = now;
    }
}

/// The service is only ever removed by two requests in a row: the first asks for confirmation, and
/// moving to another action takes it back.
pub proof fn uninstalling_takes_two_requests(app: AppView, key: Key, now: u64)
    requires
        app.valid(),
    ensures
        after_key(app, key, now).1 == Outcome::Run(Action::Uninstall) ==> app.confirm_uninstall,
        after_key(app, key, now).0.confirm_uninstall && !app.confirm_uninstall ==> app.action()
            == Action::Uninstall && after_key(app, key, now).1 == Outcome::Stay,
        after_key(app, key, now).0.selected != app.selected ==> !after_key(
            app,
            key,
            now,
        ).0.confirm_uninstall,
{
}

/// While an action runs no other is started, and the interface does not end.
pub proof fn one_action_at_a_time(app: AppView, key: Key, now: u64)
    requires
        app.pending,
    ensures
        after_key(app, key, now).1 == Outcome::Stay,
        after_key(app, key, now).0.pending,
{
}

// ── areas ────────────────────────────────────────────────────────────────────

/// Where everything is.
#[derive(Clone, Copy, Debug, PartialEq, Eq)]
pub struct ScreenParts {
    pub header: Area,
    pub title: Area,
    pub keys: Area,
    pub status: Area,
    pub state: Area,
    pub binary: Area,
    pub unit: Area,
    pub actions: Area,
    pub help: Area,
    pub notice: Area,
    pub footer: Area,
}

/// The limits that centre a length.
pub open spec fn centre_limits(length: int) -> Seq<Limit> {
    seq![Limit::Fill(1), Limit::Length(length as u16), Limit::Fill(1)]
}

/// A length as far as there is room.
pub open spec fn at_most(length: int, room: int) -> int {
    if length < room {
        length
    } else {
        room
    }
}

/// Whether an area is the middle of another: of its middle columns, the middle rows.
pub open spec fn is_middle(middle: Area, area: Area, width: int, height: int) -> bool {
    exists|columns: Seq<Area>, rows: Seq<Area>|
        #![trigger middle_of(middle, area, width, height, columns, rows)]
        middle_of(middle, area, width, height, columns, rows)
}

/// Whether an area is the middle of another, by way of the given columns and rows.
pub open spec fn middle_of(
    middle: Area,
    area: Area,
    width: int,
    height: int,
    columns: Seq<Area>,
    rows: Seq<Area>,
) -> bool {
    &&& division(area, false, centre_limits(at_most(width, area.width as int)), 0, columns)
    &&& division(columns[1], true, centre_limits(at_most(height, area.height as int)), 0, rows)
    &&& middle == rows[1]
}

/// The middle of an area that lies where coordinates reach. What cannot be halved evenly leaves one
/// cell more before the middle than behind it.
pub open spec fn middle_area(area: Area, width: int, height: int) -> Area {
    let w = at_most(width, area.width as int);
    let h = at_most(height, area.height as int);
    Area {
        x: (area.x + (area.width - w + 1) / 2) as u16,
        y: (area.y + (area.height - h + 1) / 2) as u16,
        width: w as u16,
        height: h as u16,
    }
}

/// An area in the middle of another, of a given size as far as there is room.
pub fn centered_area(area: Area, width: u16, height: u16) -> (middle: Area)
    ensures
        is_middle(middle, area, width as int, height as int),
        area.x + area.width <= 65535 && area.y + area.height <= 65535 ==> middle == middle_area(
            area,
            width as int,
            height as int,
        ),
{
    let across_limits: Vec<Limit> = vec![
        Limit::Fill(1),
        Limit::Length(
            if width < area.width {
                width
            } else {
                area.width
            },
        ),
        Limit::Fill(1),
    ];
    let columns: Vec<Area> = split(area, false, across_limits.as_slice(), 0);
    let down_limits: Vec<Limit> = vec![
        Limit::Fill(1),
        Limit::Length(
            if height < area.height {
                height
            } else {
                area.height
            },
        ),
        Limit::Fill(1),
    ];
    let rows: Vec<Area> = split(columns[1], true, down_limits.as_slice(), 0);
    proof {
        let w = at_most(width as int, area.width as int);
        let h = at_most(height as int, area.height as int);
        assert(across_limits@ =~= centre_limits(w));
        assert(down_limits@ =~= centre_limits(h));
        assert(middle_of(rows@[1], area, width as int, height as int, columns@, rows@));
        if area.x + area.width <= 65535 && area.y + area.height <= 65535 {
            assert(columns@ == centred(area, false, w));
            assert(across(columns@[1], area, false));
            assert(rows@ == centred(columns@[1], true, h));
        }
    }
    rows[1]
}

/// The rows that the middle of a terminal is divided into.
pub open spec fn section_limits() -> Seq<Limit> {
    seq![
        Limit::Length(3),
        Limit::Length(5),
        Limit::Min(8),
        Limit::Length(3),
        Limit::Length(1),
        Limit::Length(1),
    ]
}

/// The part of a terminal within the margin.
pub open spec fn content_area(area: Area) -> Area {
    within_margin(
        area,
        if area.width >= 90 {
            2
        } else {
            1
        },
        0,
    )
}

/// The parts of a screen, from its sections, the columns of the header and the rows of the status.
pub open spec fn assigned_parts(
    sections: Seq<Area>,
    header: Seq<Area>,
    rows: Seq<Area>,
) -> ScreenParts {
    ScreenParts {
        header: sections[0],
        title: header[0],
        keys: header[1],
        status: sections[1],
        state: rows[0],
        binary: rows[1],
        unit: rows[2],
        actions: sections[2],
        help: sections[3],
        notice: sections[4],
        footer: sections[5],
    }
}

/// Whether parts are those that a terminal is divided into.
pub open spec fn parts_fit(parts: ScreenParts, area: Area) -> bool {
    let content = content_area(area);
    exists|middle: Area, sections: Seq<Area>, header: Seq<Area>, rows: Seq<Area>|
        #![trigger division_of(parts, content, middle, sections, header, rows)]
        division_of(parts, content, middle, sections, header, rows)
}

/// Whether parts are those of a terminal, by way of the given areas.
pub open spec fn division_of(
    parts: ScreenParts,
    content: Area,
    middle: Area,
    sections: Seq<Area>,
    header: Seq<Area>,
    rows: Seq<Area>,
) -> bool {
    let status = within_margin(within_frame(sections[1]), 1, 0);
    &&& is_middle(middle, content, 72, at_most(22, content.height as int))
    &&& content.x + content.width <= 65535 && content.y + content.height <= 65535 ==> middle
        == middle_area(content, 72, at_most(22, content.height as int))
    &&& division(middle, true, section_limits(), 0, sections)
    &&& division(above_rule(sections[0]), false, header_columns(), 0, header)
    &&& division(status, true, single_rows(3), 0, rows)
    &&& parts == assigned_parts(sections, header, rows)
}

/// Divides a terminal.
pub fn screen_parts(area: Area) -> (parts: ScreenParts)
    ensures
        parts_fit(parts, area),
        has_room(area) ==> parts == placed_parts(area),
{
    let margin: u16 = if area.width >= 90 {
        2
    } else {
        1
    };
    let content: Area = area.inner(margin, 0);
    let middle: Area = centered_area(
        content,
        72,
        if content.height < 22 {
            content.height
        } else {
            22
        },
    );
    let one: Limit = Limit::Length(1);
    let limits: Vec<Limit> = vec![
        Limit::Length(3),
        Limit::Length(5),
        Limit::Min(8),
        Limit::Length(3),
        one,
        one,
    ];
    let sections: Vec<Area> = split(middle, true, limits.as_slice(), 0);
    let columns: Vec<Limit> = vec![Limit::Min(1), Limit::Length(12)];
    let header: Vec<Area> = split(sections[0].ruled(), false, columns.as_slice(), 0);
    let lines: Vec<Limit> = vec![one, one, one];
    let status: Area = sections[1].framed().inner(1, 0);
    let rows: Vec<Area> = split(status, true, lines.as_slice(), 0);
    let parts: ScreenParts = ScreenParts {
        header: sections[0],
        title: header[0],
        keys: header[1],
        status: sections[1],
        state: rows[0],
        binary: rows[1],
        unit: rows[2],
        actions: sections[2],
        help: sections[3],
        notice: sections[4],
        footer: sections[5],
    };
    proof {
        assert(limits@ =~= section_limits());
        assert(columns@ =~= header_columns());
        assert(lines@ =~= single_rows(3));
        assert(content == content_area(area));
        assert(division_of(parts, content, middle, sections@, header@, rows@));
        if has_room(area) {
            everything_has_its_place(area, parts);
        }
    }
    parts
}

/// Whether a terminal has room for everything. From eighteen to twenty rows it has too few: the
/// sections come to twenty-one.
pub open spec fn has_room(area: Area) -> bool {
    &&& area.width >= 60
    &&& area.height >= 21
    &&& area.x + area.width <= 65535
    &&& area.y + area.height <= 65535
}

/// Where everything is on a terminal that has room for it.
pub open spec fn placed_parts(area: Area) -> ScreenParts {
    let content = content_area(area);
    let middle = middle_area(content, 72, at_most(22, content.height as int));
    let h = middle.height as int;
    let header = part_at(middle, true, 0, 3);
    let status = part_at(middle, true, 3, 5);
    let inside = within_margin(within_frame(status), 1, 0);
    let title = above_rule(header);
    ScreenParts {
        header,
        title: part_at(title, false, 0, title.width - 12),
        keys: part_at(title, false, title.width - 12, 12),
        status,
        state: part_at(inside, true, 0, 1),
        binary: part_at(inside, true, 1, 1),
        unit: part_at(inside, true, 2, 1),
        actions: part_at(middle, true, 8, h - 13),
        help: part_at(middle, true, h - 5, 3),
        notice: part_at(middle, true, h - 2, 1),
        footer: part_at(middle, true, h - 1, 1),
    }
}

proof fn lemma_sections(spare: int)
    ensures
        is_stack(section_limits()),
        taken_before(section_limits(), 0, spare) == 0,
        taken_before(section_limits(), 1, spare) == 3,
        taken_before(section_limits(), 2, spare) == 8,
        taken_before(section_limits(), 3, spare) == 16 + spare,
        taken_before(section_limits(), 4, spare) == 19 + spare,
        taken_before(section_limits(), 5, spare) == 20 + spare,
        taken_before(section_limits(), 6, spare) == 21 + spare,
{
    reveal_with_fuel(taken_before, 7);
}

/// On a terminal that has room for everything, everything has its place.
pub proof fn everything_has_its_place(area: Area, parts: ScreenParts)
    requires
        has_room(area),
        parts_fit(parts, area),
    ensures
        parts == placed_parts(area),
{
    let content = content_area(area);
    let (middle, sections, header, rows) = choose|
        middle: Area,
        sections: Seq<Area>,
        header: Seq<Area>,
        rows: Seq<Area>,
    |
        #![trigger division_of(parts, content, middle, sections, header, rows)]
        division_of(parts, content, middle, sections, header, rows);
    lemma_sections(0);
    lemma_sections(middle.height - 21);
    assert(sections == stacked(middle, true, section_limits()));
    let title = above_rule(sections[0]);
    lemma_columns(title, header);
    let status = within_margin(within_frame(sections[1]), 1, 0);
    lemma_single_rows(3, 3, 0);
    assert(rows == stacked(status, true, single_rows(3)));
    let spare = extent(status, true) - 3;
    lemma_single_rows(3, 1, spare);
    lemma_single_rows(3, 2, spare);
}

/// On a terminal that has room for everything, the parts lie in order within the terminal, none
/// runs into the next, and all six actions are in view.
pub proof fn parts_lie_in_order(area: Area)
    requires
        has_room(area),
    ensures
        ({
            let parts = placed_parts(area);
            &&& area.x <= parts.header.x
            &&& parts.header.x + parts.header.width <= area.x + area.width
            &&& area.y <= parts.header.y
            &&& parts.header.y + parts.header.height == parts.status.y
            &&& parts.status.y + parts.status.height == parts.actions.y
            &&& within_frame(parts.actions).height >= 6
            &&& parts.actions.y + parts.actions.height == parts.help.y
            &&& parts.help.y + parts.help.height == parts.notice.y
            &&& parts.notice.y + parts.notice.height == parts.footer.y
            &&& parts.footer.y + parts.footer.height <= area.y + area.height
        }),
{
}

/// On every terminal that is drawn on, also on one that has too few rows, the parts lie in order
/// within the terminal, and none runs into the next.
pub proof fn no_part_runs_into_another(area: Area, parts: ScreenParts)
    requires
        area.width >= 60,
        area.height >= 18,
        area.x + area.width <= 65535,
        area.y + area.height <= 65535,
        parts_fit(parts, area),
    ensures
        area.y <= parts.header.y,
        parts.header.y + parts.header.height == parts.status.y,
        parts.status.y + parts.status.height == parts.actions.y,
        parts.actions.y + parts.actions.height == parts.help.y,
        parts.help.y + parts.help.height == parts.notice.y,
        parts.notice.y + parts.notice.height == parts.footer.y,
        parts.footer.y + parts.footer.height <= area.y + area.height,
        lies_within(parts.header, area),
        lies_within(parts.status, area),
        lies_within(parts.actions, area),
        lies_within(parts.help, area),
        lies_within(parts.notice, area),
        lies_within(parts.footer, area),
{
    let content = content_area(area);
    let (middle, sections, header, rows) = choose|
        middle: Area,
        sections: Seq<Area>,
        header: Seq<Area>,
        rows: Seq<Area>,
    |
        #![trigger division_of(parts, content, middle, sections, header, rows)]
        division_of(parts, content, middle, sections, header, rows);
    lemma_sections(0);
    assert(in_a_row(sections, middle, true));
    assert(lies_within(middle, area));
    assert forall|i: int| 0 <= i < sections.len() implies lies_within(
        #[trigger] sections[i],
        area,
    ) by {
        assert(across(sections[i], middle, true) && along(sections[i], middle, true));
    }
}

// ── drawings ─────────────────────────────────────────────────────────────────

/// The header.
pub open spec fn header_drawings(parts: ScreenParts) -> Seq<DrawingView> {
    seq![
        DrawingView::Rule { area: parts.header },
        text_at(
            parts.title,
            seq![
                piece(" WAYWARM "@, in_bold(ACCENT)),
                piece("·"@, in_color(MUTED)),
                piece(" service "@, in_color(MUTED)),
            ],
            Align::Left,
        ),
        text_at(parts.keys, quit_line(), Align::Right),
    ]
}

/// Draws the header.
pub fn render_header(parts: ScreenParts) -> (drawings: Vec<Drawing>)
    ensures
        drawing_views(drawings@) == header_drawings(parts),
{
    let line: Vec<Span> = vec![span(" WAYWARM ", bold(ACCENT)), muted("·"), muted(" service ")];
    let ghost views = line_view(line@);
    let drawings: Vec<Drawing> = vec![
        Drawing::Rule { area: parts.header },
        text_line(parts.title, line, Align::Left),
        quit_reminder(parts.keys),
    ];
    proof {
        let wanted = header_drawings(parts);
        assert(views =~= wanted[1]->Text_line);
        assert(drawing_views(drawings@) =~= wanted);
    }
    drawings
}

/// Whether the service runs.
pub open spec fn run_chip(status: ServiceStatus) -> SpanView {
    if status.active {
        piece(" RUNNING "@, in_reverse(COOL))
    } else {
        piece(" STOPPED "@, in_reverse(ACCENT))
    }
}

/// Whether the service is installed.
pub open spec fn install_chip(status: ServiceStatus) -> SpanView {
    if status.installed {
        piece(" INSTALLED "@, in_reverse(WARM))
    } else {
        piece(" NOT INSTALLED "@, in_reverse(MUTED))
    }
}

/// Whether the service starts by itself.
pub open spec fn enabled_chip(status: ServiceStatus) -> SpanView {
    if !status.installed {
        piece(" — "@, in_reverse(MUTED))
    } else if status.enabled {
        piece(" ENABLED "@, in_reverse(COOL))
    } else {
        piece(" DISABLED "@, in_reverse(MUTED))
    }
}

/// A path, cut to the room beside its name.
pub open spec fn path_line(name: Seq<char>, path: Seq<char>, area: Area) -> Seq<SpanView> {
    seq![
        piece(name, in_color(MUTED)),
        piece(truncated(path, floored_difference(area.width as int, 10)), in_color(TEXT)),
    ]
}

/// The status.
pub open spec fn status_drawings(app: AppView, parts: ScreenParts) -> Seq<DrawingView> {
    seq![
        panel_at(parts.status, " STATUS "@),
        text_at(
            parts.state,
            seq![
                piece("Daemon  "@, in_color(MUTED)),
                run_chip(app.status),
                piece("  "@, unstyled()),
                install_chip(app.status),
                piece("  "@, unstyled()),
                enabled_chip(app.status),
            ],
            Align::Left,
        ),
        text_at(
            parts.binary,
            path_line("Binary  "@, app.paths.binary, parts.binary),
            Align::Left,
        ),
        text_at(parts.unit, path_line("Unit    "@, app.paths.unit, parts.unit), Align::Left),
    ]
}

fn path_spans(name: &str, path: &str, area: Area) -> (line: Vec<Span>)
    ensures
        line_view(line@) == path_line(name@, path@, area),
{
    let room: usize = if area.width >= 10 {
        area.width as usize - 10
    } else {
        0
    };
    let line: Vec<Span> = vec![
        muted(name),
        owned_span(truncate_with_ellipsis(path, room), colored(TEXT)),
    ];
    proof {
        assert(line_view(line@) =~= path_line(name@, path@, area));
    }
    line
}

/// Draws the status.
pub fn render_status(app: &App, parts: ScreenParts) -> (drawings: Vec<Drawing>)
    ensures
        drawing_views(drawings@) == status_drawings(app@, parts),
{
    let run: Span = if app.status.active {
        span(" RUNNING ", reverse(COOL))
    } else {
        span(" STOPPED ", reverse(ACCENT))
    };
    let install: Span = if app.status.installed {
        span(" INSTALLED ", reverse(WARM))
    } else {
        span(" NOT INSTALLED ", reverse(MUTED))
    };
    let enabled: Span = if !app.status.installed {
        span(" — ", reverse(MUTED))
    } else if app.status.enabled {
        span(" ENABLED ", reverse(COOL))
    } else {
        span(" DISABLED ", reverse(MUTED))
    };
    let line: Vec<Span> = vec![
        muted("Daemon  "),
        run,
        span("  ", raw()),
        install,
        span("  ", raw()),
        enabled,
    ];
    let ghost views = line_view(line@);
    let binary: Vec<Span> = path_spans("Binary  ", app.manager.binary_path(), parts.binary);
    let unit: Vec<Span> = path_spans("Unit    ", app.manager.unit_path(), parts.unit);
    let drawings: Vec<Drawing> = vec![
        panel(parts.status, " STATUS "),
        text_line(parts.state, line, Align::Left),
        text_line(parts.binary, binary, Align::Left),
        text_line(parts.unit, unit, Align::Left),
    ];
    proof {
        let wanted = status_drawings(app@, parts);
        assert(views =~= wanted[1]->Text_line);
        assert(drawing_views(drawings@) =~= wanted);
    }
    drawings
}

/// An action in the list: marked while it waits for confirmation or runs, and muted where the
/// service would have to be installed first.
pub open spec fn action_line(app: AppView, place: int) -> Seq<SpanView> {
    let action = ACTIONS@[place];
    let confirm = if action == Action::Uninstall && app.confirm_uninstall {
        "  ·  confirm?"@
    } else {
        Seq::empty()
    };
    let running = if app.pending && app.selected == place {
        "  …"@
    } else {
        Seq::empty()
    };
    let available = !needs_install(action) || app.status.installed;
    seq![
        piece(
            action_label(action) + confirm + running,
            in_color(
                if available {
                    TEXT
                } else {
                    MUTED
                },
            ),
        ),
    ]
}

/// The actions in the list.
pub open spec fn action_lines(app: AppView) -> Seq<Seq<SpanView>> {
    Seq::new(6, |place: int| action_line(app, place))
}

/// The actions.
pub open spec fn actions_drawings(app: AppView, parts: ScreenParts) -> Seq<DrawingView> {
    seq![
        panel_at(parts.actions, " ACTIONS "@),
        DrawingView::Rows {
            area: within_frame(parts.actions),
            lines: action_lines(app),
            selected: Some(app.selected as usize),
        },
    ]
}

fn action_item(app: &App, place: usize) -> (line: Vec<Span>)
    requires
        place < 6,
    ensures
        line_view(line@) == action_line(app@, place as int),
{
    let actions: [Action; 6] = ACTIONS;
    let action: Action = actions[place];
    let available: bool = !action.requires_install() || app.status.installed;
    let mut label: String = action.label().to_owned();
    proof {
        assert(label@ + Seq::<char>::empty() =~= label@);
        assert(label@ + "  ·  confirm?"@ + Seq::<char>::empty() =~= label@ + "  ·  confirm?"@);
    }
    if action == Action::Uninstall && app.confirm_uninstall {
        label.append("  ·  confirm?");
    }
    if app.pending && app.selected == place {
        label.append("  …");
    }
    let line: Vec<Span> = vec![
        owned_span(
            label,
            colored(
                if available {
                    TEXT
                } else {
                    MUTED
                },
            ),
        ),
    ];
    proof {
        assert(line_view(line@) =~= action_line(app@, place as int));
    }
    line
}

/// Draws the actions.
pub fn render_actions(app: &App, parts: ScreenParts) -> (drawings: Vec<Drawing>)
    ensures
        drawing_views(drawings@) == actions_drawings(app@, parts),
{
    let lines: Vec<Vec<Span>> = vec![
        action_item(app, 0),
        action_item(app, 1),
        action_item(app, 2),
        action_item(app, 3),
        action_item(app, 4),
        action_item(app, 5),
    ];
    proof {
        assert(lines_view(lines@) =~= action_lines(app@));
    }
    let drawings: Vec<Drawing> = vec![
        panel(parts.actions, " ACTIONS "),
        Drawing::Rows { area: parts.actions.framed(), lines, selected: Some(app.selected) },
    ];
    proof {
        assert(drawing_views(drawings@) =~= actions_drawings(app@, parts));
    }
    drawings
}

/// The message. Room is kept for the mark before it: three bytes for a warning, five while an action
/// runs, four otherwise.
pub open spec fn notice_drawing(app: AppView, area: Area) -> DrawingView {
    let warning = app.message_error || app.confirm_uninstall;
    let (mark, color, taken) = if warning {
        (" ! "@, ACCENT, 3int)
    } else if app.pending {
        (" … "@, WARM, 5)
    } else {
        (" · "@, MUTED, 4)
    };
    text_at(
        area,
        seq![
            piece(mark, in_bold(color)),
            piece(
                truncated(app.message, floored_difference(area.width as int, taken)),
                in_color(
                    if warning {
                        ACCENT
                    } else {
                        TEXT
                    },
                ),
            ),
        ],
        Align::Left,
    )
}

/// Draws the message.
pub fn render_notice(app: &App, area: Area) -> (drawing: Drawing)
    ensures
        drawing@ == notice_drawing(app@, area),
{
    let warning: bool = app.message_error || app.confirm_uninstall;
    let mark: &str = if warning {
        " ! "
    } else if app.pending {
        " … "
    } else {
        " · "
    };
    let color: Color = if warning {
        ACCENT
    } else if app.pending {
        WARM
    } else {
        MUTED
    };
    let taken: u16 = if warning {
        3
    } else if app.pending {
        5
    } else {
        4
    };
    let room: u16 = if area.width >= taken {
        area.width - taken
    } else {
        0
    };
    let line: Vec<Span> = vec![
        span(mark, bold(color)),
        owned_span(
            truncate_with_ellipsis(app.message.as_str(), room as usize),
            colored(
                if warning {
                    ACCENT
                } else {
                    TEXT
                },
            ),
        ),
    ];
    proof {
        assert(line_view(line@) =~= notice_drawing(app@, area)->Text_line);
    }
    text_line(area, line, Align::Left)
}

/// The keys.
pub open spec fn footer_line() -> Seq<SpanView> {
    seq![
        key_piece("↑/↓"@),
        piece(" Navigate  "@, in_color(MUTED)),
        key_piece("Enter"@),
        piece(" Run  "@, in_color(MUTED)),
        key_piece("q"@),
        piece(" Quit"@, in_color(MUTED)),
    ]
}

/// Draws the keys.
pub fn render_footer(area: Area) -> (drawing: Drawing)
    ensures
        drawing@ == text_at(area, footer_line(), Align::Center),
{
    let line: Vec<Span> = vec![
        key_chip("↑/↓"),
        muted(" Navigate  "),
        key_chip("Enter"),
        muted(" Run  "),
        key_chip("q"),
        muted(" Quit"),
    ];
    proof {
        assert(line_view(line@) =~= footer_line());
    }
    text_line(area, line, Align::Center)
}

/// The screen of the interface, given where everything is.
pub open spec fn screen_drawings(app: AppView, area: Area, parts: ScreenParts) -> Seq<DrawingView> {
    seq![DrawingView::Base { area, color: TEXT }] + header_drawings(parts) + status_drawings(
        app,
        parts,
    ) + actions_drawings(app, parts) + help_box(
        parts.help,
        action_label(app.action()),
        action_help(app.action()),
    ) + seq![
        notice_drawing(app, parts.notice),
        text_at(parts.footer, footer_line(), Align::Center),
    ]
}

/// Draws the interface, given where everything is.
pub fn render_parts(app: &App, area: Area, parts: ScreenParts) -> (drawings: Vec<Drawing>)
    requires
        app@.valid(),
    ensures
        drawing_views(drawings@) == screen_drawings(app@, area, parts),
{
    let mut drawings: Vec<Drawing> = vec![Drawing::Base { area, color: TEXT }];
    proof {
        assert(drawing_views(drawings@) =~= seq![DrawingView::Base { area, color: TEXT }]);
    }
    draw_all(&mut drawings, render_header(parts));
    draw_all(&mut drawings, render_status(app, parts));
    draw_all(&mut drawings, render_actions(app, parts));
    let actions: [Action; 6] = ACTIONS;
    let action: Action = actions[app.selected];
    draw_all(&mut drawings, render_help(parts.help, action.label(), action.help()));
    let bottom: Vec<Drawing> = vec![
        render_notice(app, parts.notice),
        render_footer(parts.footer),
    ];
    proof {
        assert(drawing_views(bottom@) =~= seq![
            notice_drawing(app@, parts.notice),
            text_at(parts.footer, footer_line(), Align::Center),
        ]);
    }
    draw_all(&mut drawings, bottom);
    drawings
}

/// Draws the interface.
pub fn render(app: &App, area: Area) -> (drawings: Vec<Drawing>)
    requires
        app@.valid(),
    ensures
        if area.width < 60 || area.height < 18 {
            drawing_views(drawings@) == too_small(
                area,
                "Waywarm needs a terminal of at least 60 × 18"@,
            )
        } else {
            exists|parts: ScreenParts|
                parts_fit(parts, area) && (has_room(area) ==> parts == placed_parts(area))
                    && drawing_views(drawings@) == #[trigger] screen_drawings(app@, area, parts)
        },
{
    if area.width < 60 || area.height < 18 {
        return render_too_small(area, "Waywarm needs a terminal of at least 60 × 18");
    }
    render_parts(app, area, screen_parts(area))
}

// ── what actions are for ─────────────────────────────────────────────────────

/// Each action takes the steps that its name promises.
pub proof fn actions_take_the_steps_of_their_name()
    ensures
        action_steps(Action::Install) == install_steps(),
        action_steps(Action::Uninstall) == uninstall_steps(),
        calls(
            action_steps(Action::Start).last(),
            seq!["start"@, "waywarm.service"@],
            true,
        ),
        calls(
            action_steps(Action::Restart).last(),
            seq!["restart"@, "waywarm.service"@],
            true,
        ),
        calls(action_steps(Action::Stop).last(), seq!["stop"@, "waywarm.service"@], true),
{
    starting_ends_with_the_service_told("start"@);
    starting_ends_with_the_service_told("restart"@);
}

/// Enter and the space bar start the selected action, if none runs: the one whose name stands in the
/// selected line. Removing starts only once it was confirmed. The last line leaves.
pub proof fn enter_starts_the_selected_action(app: AppView, key: Key, now: u64)
    requires
        app.valid(),
        !app.pending,
        key == Key::Enter || key == Key::Char(' '),
    ensures
        ({
            let (after, outcome) = after_key(app, key, now);
            &&& app.selected == 0 ==> outcome == Outcome::Run(Action::Install)
            &&& app.selected == 1 ==> outcome == Outcome::Run(Action::Start)
            &&& app.selected == 2 ==> outcome == Outcome::Run(Action::Stop)
            &&& app.selected == 3 ==> outcome == Outcome::Run(Action::Restart)
            &&& app.selected == 4 && app.confirm_uninstall ==> outcome == Outcome::Run(
                Action::Uninstall,
            )
            &&& app.selected == 4 && !app.confirm_uninstall ==> outcome == Outcome::Stay
                && after.confirm_uninstall
            &&& app.selected == 5 ==> outcome == Outcome::Quit
            &&& outcome is Run ==> after.pending && !after.confirm_uninstall
            &&& after.selected == app.selected
            &&& after.status == app.status
            &&& after.paths == app.paths
        }),
{
}

/// The lines of the list bear the names of the actions in this order; one that has to be confirmed
/// or runs has a mark behind its name.
pub proof fn lines_bear_the_names_of_the_actions(app: AppView)
    requires
        !app.pending,
        !app.confirm_uninstall,
    ensures
        ({
            let lines = action_lines(app);
            &&& lines.len() == 6
            &&& lines[0][0].content == "Install or update and start"@
            &&& lines[1][0].content == "Start"@
            &&& lines[2][0].content == "Stop"@
            &&& lines[3][0].content == "Restart"@
            &&& lines[4][0].content == "Uninstall"@
            &&& lines[5][0].content == "Quit"@
        }),
{
    let none = Seq::<char>::empty();
    assert("Install or update and start"@ + none + none =~= "Install or update and start"@);
    assert("Start"@ + none + none =~= "Start"@);
    assert("Stop"@ + none + none =~= "Stop"@);
    assert("Restart"@ + none + none =~= "Restart"@);
    assert("Uninstall"@ + none + none =~= "Uninstall"@);
    assert("Quit"@ + none + none =~= "Quit"@);
}

/// Up and Down, and the keys that stand for them, select the line above or below, round the list,
/// and take a confirmation back; `q` and Esc leave unless an action runs; no other key but Enter and
/// the space bar does anything.
pub proof fn keys_walk_the_actions(app: AppView, key: Key, now: u64)
    requires
        app.valid(),
    ensures
        ({
            let (after, outcome) = after_key(app, key, now);
            let above = key == Key::Up || key == Key::Char('k') || key == Key::BackTab;
            let below = key == Key::Down || key == Key::Char('j') || key == Key::Tab;
            let leaves = key == Key::Char('q') || key == Key::Esc;
            let starts = key == Key::Enter || key == Key::Char(' ');
            &&& below ==> after.selected == (if app.selected == 5 {
                0
            } else {
                app.selected + 1
            })
            &&& above ==> after.selected == (if app.selected == 0 {
                5
            } else {
                app.selected - 1
            })
            &&& above || below ==> outcome == Outcome::Stay && !after.confirm_uninstall
                && after.pending == app.pending
            &&& leaves && !app.pending ==> outcome == Outcome::Quit
            &&& leaves && app.pending ==> outcome == Outcome::Stay && after.message_error
            &&& !above && !below && !leaves && !starts ==> after == app && outcome == Outcome::Stay
        }),
{
}

/// A service that is not installed can be installed and cleared up, and nothing else.
pub proof fn actions_need_an_installation(action: Action, status: ServiceStatus)
    ensures
        status.installed ==> may_run(action, status),
        !status.installed ==> (may_run(action, status) <==> action == Action::Install || action
            == Action::Uninstall),
{
}

/// The status tells whether the service runs, is installed and starts by itself, and where its
/// program and its unit are.
pub proof fn the_status_tells_of_the_service(app: AppView, parts: ScreenParts)
    ensures
        ({
            let drawings = status_drawings(app, parts);
            &&& drawings[1] matches DrawingView::Text { area, line, .. } && area == parts.state
                && line[1].content == (if app.status.active {
                " RUNNING "@
            } else {
                " STOPPED "@
            }) && line[3].content == (if app.status.installed {
                " INSTALLED "@
            } else {
                " NOT INSTALLED "@
            }) && line[5].content == (if !app.status.installed {
                " — "@
            } else if app.status.enabled {
                " ENABLED "@
            } else {
                " DISABLED "@
            })
            &&& drawings[2] matches DrawingView::Text { area, line, .. } && area == parts.binary
                && line[0].content == "Binary  "@ && line[1].content == truncated(
                app.paths.binary,
                floored_difference(area.width as int, 10),
            )
            &&& drawings[3] matches DrawingView::Text { area, line, .. } && area == parts.unit
                && line[0].content == "Unit    "@ && line[1].content == truncated(
                app.paths.unit,
                floored_difference(area.width as int, 10),
            )
        }),
{
}

/// The list of actions marks the selected one, and the help is that of the selected one.
pub proof fn the_screen_shows_the_selected_action(app: AppView, area: Area, parts: ScreenParts)
    requires
        app.valid(),
    ensures
        ({
            let all = screen_drawings(app, area, parts);
            &&& all.len() >= 12
            &&& all[0] is Base
            &&& all.subrange(1, 4) == header_drawings(parts)
            &&& all.subrange(4, 8) == status_drawings(app, parts)
            &&& all[9] == (DrawingView::Rows {
                area: within_frame(parts.actions),
                lines: action_lines(app),
                selected: Some(app.selected as usize),
            })
            &&& all.subrange(10, all.len() - 2) == help_box(
                parts.help,
                action_label(app.action()),
                action_help(app.action()),
            )
            &&& all[all.len() - 2] == notice_drawing(app, parts.notice)
            &&& all.last() == text_at(parts.footer, footer_line(), Align::Center)
        }),
{
    let all = screen_drawings(app, area, parts);
    let help = help_box(parts.help, action_label(app.action()), action_help(app.action()));
    assert(all.subrange(1, 4) =~= header_drawings(parts));
    assert(all.subrange(4, 8) =~= status_drawings(app, parts));
    assert(all.subrange(10, all.len() - 2) =~= help);
}

/// An action that cannot be done yet is muted, one that waits to be confirmed asks for it, and one
/// that runs is marked.
pub proof fn lines_tell_how_actions_stand(app: AppView, place: int)
    requires
        0 <= place < 6,
    ensures
        ({
            let part = action_line(app, place)[0];
            let action = ACTIONS@[place];
            let usable = app.status.installed || action == Action::Install || action
                == Action::Quit;
            let asks = action == Action::Uninstall && app.confirm_uninstall;
            let runs = app.pending && app.selected == place;
            &&& part.style.fg == Some(
                if usable {
                    TEXT
                } else {
                    MUTED
                },
            )
            &&& asks && !runs ==> part.content == action_label(action) + "  ·  confirm?"@
            &&& runs && !asks ==> part.content == action_label(action) + "  …"@
            &&& !asks && !runs ==> part.content == action_label(action)
        }),
{
    let none = Seq::<char>::empty();
    let label = action_label(ACTIONS@[place]);
    assert(label + "  ·  confirm?"@ + none =~= label + "  ·  confirm?"@);
    assert(label + none + "  …"@ =~= label + "  …"@);
    assert(label + none + none =~= label);
}

/// The message is shown in the room that there is, with a mark for a warning or for an action that
/// runs.
pub proof fn messages_are_shown_with_their_mark(app: AppView, area: Area)
    ensures
        notice_drawing(app, area) matches DrawingView::Text { area: place, line, .. } && place
            == area && line.len() == 2 && ({
            let warns = app.message_error || app.confirm_uninstall;
            &&& line[0].content == (if warns {
                " ! "@
            } else if app.pending {
                " … "@
            } else {
                " · "@
            })
            &&& ({
                let room: int = area.width as int - (if warns {
                    3int
                } else if app.pending {
                    5
                } else {
                    4
                });
                &&& app.message.len() <= room ==> line[1].content == app.message
                &&& line[1].content == truncated(
                    app.message,
                    if room < 0 {
                        0
                    } else {
                        room
                    },
                )
            })
        }),
{
}

/// A terminal of ninety columns or more is left two of them free on either side, and a narrower one
/// a single column. No row is left free.
pub proof fn margins_follow_the_width(area: Area)
    requires
        area.x + area.width <= 65535,
        area.y + area.height <= 65535,
        area.width >= 2,
    ensures
        ({
            let free: int = if area.width >= 90 {
                2
            } else {
                1
            };
            &&& content_area(area).x == area.x + free
            &&& content_area(area).x + content_area(area).width == area.x + area.width - free
            &&& content_area(area).y == area.y
            &&& content_area(area).height == area.height
        }),
{
}

}
