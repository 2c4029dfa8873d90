//! The settings interface in a terminal: what its keys do and what it shows.

use vstd::prelude::*;

use crate::config::{
    clock_text, equal_settings_agree, parse_time, same_settings, time_of, times_lie_within_the_day,
    Levels, Schedule, ScheduleTiming, ScheduleView, Settings, SettingsView, MAX_TRANSITION_MINUTES,
    MIN_BRIGHTNESS,
};
use crate::coordinate::{Coordinate, ANTIMERIDIAN, POLE};
use crate::error::ErrorView;
use crate::protocol::{RuntimeState, RuntimeView};
use crate::ui_common;
use crate::ui_common::{field_help, format_hhmm, help_of};

verus! {

// ── fields ───────────────────────────────────────────────────────────────────

/// The settings that can be moved to and changed in the terminal.
#[derive(Clone, Copy, Debug, PartialEq, Eq, Structural)]
pub enum Field {
    Mode,
    Filter,
    ManualWarmth,
    ManualBrightness,
    Timing,
    DayWarmth,
    DayBrightness,
    NightWarmth,
    NightBrightness,
    NightStart,
    DayStart,
    Latitude,
    Longitude,
    Transition,
}

/// The fields in the order in which they are shown.
pub const FIELDS: [Field; 14] = [
    Field::Mode,
    Field::Filter,
    Field::ManualWarmth,
    Field::ManualBrightness,
    Field::Timing,
    Field::DayWarmth,
    Field::DayBrightness,
    Field::NightWarmth,
    Field::NightBrightness,
    Field::NightStart,
    Field::DayStart,
    Field::Latitude,
    Field::Longitude,
    Field::Transition,
];

/// Where a field stands among the fields.
pub open spec fn field_index(field: Field) -> int {
    match field {
        Field::Mode => 0,
        Field::Filter => 1,
        Field::ManualWarmth => 2,
        Field::ManualBrightness => 3,
        Field::Timing => 4,
        Field::DayWarmth => 5,
        Field::DayBrightness => 6,
        Field::NightWarmth => 7,
        Field::NightBrightness => 8,
        Field::NightStart => 9,
        Field::DayStart => 10,
        Field::Latitude => 11,
        Field::Longitude => 12,
        Field::Transition => 13,
    }
}

/// The row of a field in the list, with the headings, and with the blank lines of a roomy list.
pub open spec fn field_row(field: Field, spacious: bool) -> int {
    let index = field_index(field);
    if index < 2 {
        index + 1
    } else if index < 4 {
        if spacious {
            index + 3
        } else {
            index + 2
        }
    } else if spacious {
        index + 5
    } else {
        index + 3
    }
}

/// The field that other interfaces share.
pub open spec fn shared_field(field: Field) -> ui_common::Field {
    match field {
        Field::Mode => ui_common::Field::Mode,
        Field::Filter => ui_common::Field::Filter,
        Field::ManualWarmth => ui_common::Field::ManualWarmth,
        Field::ManualBrightness => ui_common::Field::ManualBrightness,
        Field::Timing => ui_common::Field::Timing,
        Field::DayWarmth => ui_common::Field::DayWarmth,
        Field::DayBrightness => ui_common::Field::DayBrightness,
        Field::NightWarmth => ui_common::Field::NightWarmth,
        Field::NightBrightness => ui_common::Field::NightBrightness,
        Field::NightStart => ui_common::Field::NightStart,
        Field::DayStart => ui_common::Field::DayStart,
        Field::Latitude => ui_common::Field::Latitude,
        Field::Longitude => ui_common::Field::Longitude,
        Field::Transition => ui_common::Field::Transition,
    }
}

impl Field {
    /// Where the field stands among the fields.
    pub fn index(self) -> (index: usize)
        ensures
            index == field_index(self),
            index < 14,
            FIELDS@[index as int] == self,
    {
        match self {
        Field::Mode => 0,
        Field::Filter => 1,
        Field::ManualWarmth => 2,
        Field::ManualBrightness => 3,
        Field::Timing => 4,
        Field::DayWarmth => 5,
        Field::DayBrightness => 6,
        Field::NightWarmth => 7,
        Field::NightBrightness => 8,
        Field::NightStart => 9,
        Field::DayStart => 10,
        Field::Latitude => 11,
        Field::Longitude => 12,
        Field::Transition => 13,
        }
    }

    /// The field before this one; the last comes before the first.
    pub fn previous(self) -> (field: Self)
        ensures
            field == FIELDS@[(field_index(self) + 13) % 14],
    {
        let fields: [Field; 14] = FIELDS;
        fields[(self.index() + 13) % 14]
    }

    /// The field behind this one; the first comes behind the last.
    pub fn next(self) -> (field: Self)
        ensures
            field == FIELDS@[(field_index(self) + 1) % 14],
    {
        let fields: [Field; 14] = FIELDS;
        fields[(self.index() + 1) % 14]
    }

    /// The row of the field in the list, with the headings, and with the blank lines of a roomy
    /// list.
    pub fn row_index(self, spacious: bool) -> (row: usize)
        ensures
            row == field_row(self, spacious),
    {
        let index: usize = self.index();
        match self {
            Field::Mode | Field::Filter => index + 1,
            Field::ManualWarmth | Field::ManualBrightness => if spacious {
                index + 3
            } else {
                index + 2
            },
            _ => if spacious {
                index + 5
            } else {
                index + 3
            },
        }
    }

    /// Whether the field is switched rather than adjusted.
    pub fn is_toggle(self) -> (r: bool)
        ensures
            r == switches(self),
    {
        matches!(self, Field::Mode | Field::Filter | Field::Timing)
    }

    fn shared(self) -> (field: ui_common::Field)
        ensures
            field == shared_field(self),
    {
        match self {
        Field::Mode => ui_common::Field::Mode,
        Field::Filter => ui_common::Field::Filter,
        Field::ManualWarmth => ui_common::Field::ManualWarmth,
        Field::ManualBrightness => ui_common::Field::ManualBrightness,
        Field::Timing => ui_common::Field::Timing,
        Field::DayWarmth => ui_common::Field::DayWarmth,
        Field::DayBrightness => ui_common::Field::DayBrightness,
        Field::NightWarmth => ui_common::Field::NightWarmth,
        Field::NightBrightness => ui_common::Field::NightBrightness,
        Field::NightStart => ui_common::Field::NightStart,
        Field::DayStart => ui_common::Field::DayStart,
        Field::Latitude => ui_common::Field::Latitude,
        Field::Longitude => ui_common::Field::Longitude,
        Field::Transition => ui_common::Field::Transition,
        }
    }
}

/// Whether a field is switched rather than adjusted.
pub open spec fn switches(field: Field) -> bool {
    field == Field::Mode || field == Field::Filter || field == Field::Timing
}

/// Going to the next field and to the previous one undo each other.
pub proof fn next_and_previous_are_inverse(field: Field)
    ensures
        FIELDS@[(field_index(FIELDS@[(field_index(field) + 1) % 14]) + 13) % 14] == field,
        FIELDS@[(field_index(FIELDS@[(field_index(field) + 13) % 14]) + 1) % 14] == field,
        FIELDS@[field_index(field)] == field,
{
}

/// The title and the help of a field.
pub fn selected_help(selected: Field) -> (help: (&'static str, &'static str))
    ensures
        help.0@ == help_of(shared_field(selected)).0,
        help.1@ == help_of(shared_field(selected)).1,
{
    field_help(selected.shared())
}

// ── changes ──────────────────────────────────────────────────────────────────

/// A percentage moved by a difference, within its limits.
pub open spec fn moved_percent(value: int, by: int, minimum: int) -> int {
    if value + by < minimum {
        minimum
    } else if value + by > 100 {
        100
    } else {
        value + by
    }
}

/// Moves a percentage by a number of steps, within its limits.
pub fn adjust_percent(value: &mut u8, direction: i16, step: i16, minimum: u8)
    requires
        minimum <= 100,
        i16::MIN <= direction * step <= i16::MAX,
        *old(value) + direction * step <= i16::MAX,
    ensures
        *final(value) == moved_percent(*old(value) as int, direction * step, minimum as int),
{
    let moved: i16 = *value as i16 + direction * step;
    *value = if moved < minimum as i16 {
        minimum
    } else if moved > 100 {
        100
    } else {
        moved as u8
    };
}

/// A time moved by a number of minutes, round the clock; what is not a time stays as it is.
pub open spec fn moved_time(text: Seq<char>, by: int) -> Seq<char> {
    match time_of(text) {
        Ok(minutes) => clock_text((minutes + by) % 1440),
        Err(_) => text,
    }
}

fn minute_of_day(minutes: i16) -> (minute: u16)
    ensures
        minute == minutes as int % 1440,
        minute < 1440,
{
    // Whole days make the sum positive and leave the minute of the day as it is.
    ((minutes as i32 + 23 * 1440) % 1440) as u16
}

/// Moves a time by a number of steps, round the clock.
pub fn adjust_time(value: &mut String, direction: i16, step: i16)
    requires
        i16::MIN <= direction * step <= i16::MAX,
        time_of(old(value)@) matches Ok(minutes) ==> minutes + direction * step <= i16::MAX,
    ensures
        final(value)@ == moved_time(old(value)@, direction * step),
{
    let by: i16 = direction * step;
    if let Ok(minutes) = parse_time(value.as_str()) {
        *value = format_hhmm(minute_of_day(minutes as i16 + by));
    }
}

/// The nearest coordinate within the limits to one that was moved.
pub fn adjust_coordinate(value: &mut Coordinate, moved: Coordinate, limit: u64)
    requires
        limit <= 0x7FF0_0000_0000_0000,
    ensures
        *final(value) == moved.clamped_spec(limit),
{
    *value = moved.clamped(limit);
}

/// Turns the filter on in manual mode, and gives out the levels of that mode.
pub fn manual_levels(settings: &mut Settings) -> (levels: &mut Levels)
    ensures
        *levels == old(settings).manual,
        final(settings)@ == (SettingsView {
            enabled: true,
            automatic: false,
            manual: *final(levels),
            ..old(settings)@
        }),
{
    settings.enabled = true;
    settings.automatic = false;
    &mut settings.manual
}

/// Turns the filter on or off, whichever it is not.
pub fn toggle_filter(settings: &mut Settings)
    ensures
        final(settings)@ == (SettingsView { enabled: !old(settings)@.enabled, ..old(settings)@ }),
{
    settings.enabled = !settings.enabled;
}

/// Turns the filter on or off.
pub fn set_filter(settings: &mut Settings, enabled: bool)
    ensures
        final(settings)@ == (SettingsView { enabled, ..old(settings)@ }),
{
    settings.enabled = enabled;
}

// ── state ────────────────────────────────────────────────────────────────────

/// A message for the user, which may go away by itself. Times are in milliseconds on the clock of
/// the interface.
#[derive(Debug)]
pub struct Notice {
    pub text: String,
    pub error: bool,
    pub expires_at: Option<u64>,
}

/// A message with its text as a sequence of characters.
pub struct NoticeView {
    pub text: Seq<char>,
    pub error: bool,
    pub expires_at: Option<u64>,
}

impl View for Notice {
    type V = NoticeView;

    open spec fn view(&self) -> NoticeView {
        NoticeView { text: self.text@, error: self.error, expires_at: self.expires_at }
    }
}

/// How long a message stays that goes away by itself.
pub const NOTICE_MILLISECONDS: u64 = 2000;

/// How often the daemon is asked for its state.
pub const REFRESH_MILLISECONDS: u64 = 1000;

/// A message that goes away by itself.
pub open spec fn passing_notice(text: Seq<char>, now: u64) -> NoticeView {
    NoticeView { text, error: false, expires_at: Some((now + NOTICE_MILLISECONDS) as u64) }
}

/// A message of a failure, which stays.
pub open spec fn failure_notice(text: Seq<char>) -> NoticeView {
    NoticeView { text, error: true, expires_at: None }
}

impl Notice {
    pub fn saved(now: u64) -> (notice: Self)
        requires
            now + NOTICE_MILLISECONDS <= u64::MAX,
        ensures
            notice@ == passing_notice("Settings saved"@, now),
    {
        Notice {
            text: "Settings saved".to_owned(),
            error: false,
            expires_at: Some(now + NOTICE_MILLISECONDS),
        }
    }

    pub fn reconnected(now: u64) -> (notice: Self)
        requires
            now + NOTICE_MILLISECONDS <= u64::MAX,
        ensures
            notice@ == passing_notice("Display backend reconnected"@, now),
    {
        Notice {
            text: "Display backend reconnected".to_owned(),
            error: false,
            expires_at: Some(now + NOTICE_MILLISECONDS),
        }
    }

    pub fn error(text: String) -> (notice: Self)
        ensures
            notice@ == failure_notice(text@),
    {
        Notice { text, error: true, expires_at: None }
    }
}

/// The state of the interface.
#[derive(Debug)]
pub struct App {
    pub state: RuntimeState,
    pub selected: Field,
    pub notice: Option<Notice>,
    pub transient: bool,
    pub backend_available: bool,
    pub last_refresh: u64,
}

/// The state of the interface, with texts as sequences of characters.
pub struct AppView {
    pub state: RuntimeView,
    pub selected: Field,
    pub notice: Option<NoticeView>,
    pub transient: bool,
    pub backend_available: bool,
    pub last_refresh: u64,
}

impl View for App {
    type V = AppView;

    open spec fn view(&self) -> AppView {
        AppView {
            state: self.state@,
            selected: self.selected,
            notice: match self.notice {
                Some(notice) => Some(notice@),
                None => None,
            },
            transient: self.transient,
            backend_available: self.backend_available,
            last_refresh: self.last_refresh,
        }
    }
}

/// A key, as far as the interface knows it.
#[derive(Clone, Copy, Debug, PartialEq, Eq, Structural)]
pub enum Key {
    Char(char),
    Up,
    Down,
    Left,
    Right,
    Tab,
    BackTab,
    Enter,
    Esc,
    Other,
}

/// What a key asks for.
#[derive(Clone, Copy, Debug, PartialEq, Eq, Structural)]
pub enum Command {
    Quit,
    Previous,
    Next,
    Decrease,
    Increase,
    Toggle,
    Nothing,
}

/// What a key asks for.
pub open spec fn command_of(key: Key) -> Command {
    match key {
        Key::Char('q') | Key::Esc => Command::Quit,
        Key::Up | Key::Char('k') | Key::BackTab => Command::Previous,
        Key::Down | Key::Char('j') | Key::Tab => Command::Next,
        Key::Left | Key::Char('h') => Command::Decrease,
        Key::Right | Key::Char('l') => Command::Increase,
        Key::Enter | Key::Char(' ') => Command::Toggle,
        _ => Command::Nothing,
    }
}

/// Reads a key.
pub fn read_key(key: Key) -> (command: Command)
    ensures
        command == command_of(key),
{
    match key {
        Key::Char('q') | Key::Esc => Command::Quit,
        Key::Up | Key::Char('k') | Key::BackTab => Command::Previous,
        Key::Down | Key::Char('j') | Key::Tab => Command::Next,
        Key::Left | Key::Char('h') => Command::Decrease,
        Key::Right | Key::Char('l') => Command::Increase,
        Key::Enter | Key::Char(' ') => Command::Toggle,
        _ => Command::Nothing,
    }
}

/// What comes of a key.
#[derive(Debug)]
pub enum Effect {
    /// The interface ends.
    Quit,
    /// Nothing more is to be done.
    Stay,
    /// The daemon is to be sent settings.
    Submit(Settings),
}

/// What comes of a key, with texts as sequences of characters.
pub enum EffectView {
    Quit,
    Stay,
    Submit(SettingsView),
}

impl View for Effect {
    type V = EffectView;

    open spec fn view(&self) -> EffectView {
        match *self {
            Effect::Quit => EffectView::Quit,
            Effect::Stay => EffectView::Stay,
            Effect::Submit(settings) => EffectView::Submit(settings@),
        }
    }
}

/// Settings with a field switched; fields that are adjusted stay as they are.
pub open spec fn toggled(settings: SettingsView, field: Field) -> SettingsView {
    match field {
        Field::Filter => SettingsView { enabled: !settings.enabled, ..settings },
        Field::Mode => SettingsView { automatic: !settings.automatic, ..settings },
        Field::Timing => SettingsView {
            schedule: ScheduleView {
                timing: match settings.schedule.timing {
                    ScheduleTiming::Fixed => ScheduleTiming::Location,
                    ScheduleTiming::Location => ScheduleTiming::Fixed,
                },
                ..settings.schedule
            },
            ..settings
        },
        _ => settings,
    }
}

/// By how much a key moves a percentage.
pub open spec fn percent_step(up: bool, fine: bool) -> int {
    let step = if fine {
        1int
    } else {
        5
    };
    if up {
        step
    } else {
        -step
    }
}

/// By how many minutes a key moves a time.
pub open spec fn time_step(up: bool, fine: bool) -> int {
    let step = if fine {
        1int
    } else {
        15
    };
    if up {
        step
    } else {
        -step
    }
}

/// Levels with the warmth moved.
pub open spec fn warmer(levels: Levels, up: bool, fine: bool) -> Levels {
    Levels {
        warmth: moved_percent(levels.warmth as int, percent_step(up, fine), 0) as u8,
        ..levels
    }
}

/// Levels with the brightness moved.
pub open spec fn brighter(levels: Levels, up: bool, fine: bool) -> Levels {
    Levels {
        brightness: moved_percent(
            levels.brightness as int,
            percent_step(up, fine),
            MIN_BRIGHTNESS as int,
        ) as u8,
        ..levels
    }
}

/// A schedule with one of its fields moved. `nudged` is the coordinate in question moved by its
/// step, before it is kept within its limits.
pub open spec fn adjusted_schedule(
    schedule: ScheduleView,
    field: Field,
    up: bool,
    fine: bool,
    nudged: Coordinate,
) -> ScheduleView {
    match field {
        Field::Timing => ScheduleView {
            timing: if up {
                ScheduleTiming::Location
            } else {
                ScheduleTiming::Fixed
            },
            ..schedule
        },
        Field::DayWarmth => ScheduleView { day: warmer(schedule.day, up, fine), ..schedule },
        Field::DayBrightness => ScheduleView { day: brighter(schedule.day, up, fine), ..schedule },
        Field::NightWarmth => ScheduleView { night: warmer(schedule.night, up, fine), ..schedule },
        Field::NightBrightness => ScheduleView {
            night: brighter(schedule.night, up, fine),
            ..schedule
        },
        Field::NightStart => ScheduleView {
            night_start: moved_time(schedule.night_start, time_step(up, fine)),
            ..schedule
        },
        Field::DayStart => ScheduleView {
            day_start: moved_time(schedule.day_start, time_step(up, fine)),
            ..schedule
        },
        Field::Latitude => ScheduleView { latitude: nudged.clamped_spec(POLE), ..schedule },
        Field::Longitude => ScheduleView {
            longitude: nudged.clamped_spec(ANTIMERIDIAN),
            ..schedule
        },
        Field::Transition => ScheduleView {
            transition_minutes: ({
                let moved = schedule.transition_minutes + time_step(up, fine);
                if moved < 0 {
                    0
                } else if moved > MAX_TRANSITION_MINUTES {
                    MAX_TRANSITION_MINUTES
                } else {
                    moved as u16
                }
            }),
            ..schedule
        },
        _ => schedule,
    }
}

/// Settings with a field moved up or down. A level by hand turns the filter on in manual mode.
pub open spec fn adjusted(
    settings: SettingsView,
    field: Field,
    up: bool,
    fine: bool,
    nudged: Coordinate,
) -> SettingsView {
    match field {
        Field::Filter => SettingsView { enabled: up, ..settings },
        Field::Mode => SettingsView { automatic: up, ..settings },
        Field::ManualWarmth => SettingsView {
            enabled: true,
            automatic: false,
            manual: warmer(settings.manual, up, fine),
            ..settings
        },
        Field::ManualBrightness => SettingsView {
            enabled: true,
            automatic: false,
            manual: brighter(settings.manual, up, fine),
            ..settings
        },
        _ => SettingsView {
            schedule: adjusted_schedule(settings.schedule, field, up, fine, nudged),
            ..settings
        },
    }
}

/// Switches a field.
pub fn toggle_setting(settings: &mut Settings, field: Field)
    ensures
        final(settings)@ == toggled(old(settings)@, field),
{
    match field {
        Field::Filter => toggle_filter(settings),
        Field::Mode => settings.automatic = !settings.automatic,
        Field::Timing => {
            settings.schedule.timing = match settings.schedule.timing {
                ScheduleTiming::Fixed => ScheduleTiming::Location,
                ScheduleTiming::Location => ScheduleTiming::Fixed,
            };
        },
        _ => {},
    }
}

/// A step in a direction is the signed step.
proof fn lemma_signed_steps(up: bool, fine: bool, direction: int)
    requires
        direction == (if up {
            1int
        } else {
            -1
        }),
    ensures
        direction * (if fine {
            1int
        } else {
            5
        }) == percent_step(up, fine),
        direction * (if fine {
            1int
        } else {
            15
        }) == time_step(up, fine),
{
}

fn adjust_schedule(
    schedule: &mut Schedule,
    field: Field,
    up: bool,
    fine: bool,
    nudged: Coordinate,
)
    ensures
        final(schedule)@ == adjusted_schedule(old(schedule)@, field, up, fine, nudged),
{
    let direction: i16 = if up {
        1
    } else {
        -1
    };
    let by_percent: i16 = if fine {
        1
    } else {
        5
    };
    let by_minutes: i16 = if fine {
        1
    } else {
        15
    };
    proof {
        lemma_signed_steps(up, fine, direction as int);
        times_lie_within_the_day(schedule.night_start@);
        times_lie_within_the_day(schedule.day_start@);
    }
    match field {
        Field::Timing => {
            schedule.timing = if up {
                ScheduleTiming::Location
            } else {
                ScheduleTiming::Fixed
            };
        },
        Field::DayWarmth => adjust_percent(&mut schedule.day.warmth, direction, by_percent, 0),
        Field::DayBrightness => adjust_percent(
            &mut schedule.day.brightness,
            direction,
            by_percent,
            MIN_BRIGHTNESS,
        ),
        Field::NightWarmth => adjust_percent(&mut schedule.night.warmth, direction, by_percent, 0),
        Field::NightBrightness => adjust_percent(
            &mut schedule.night.brightness,
            direction,
            by_percent,
            MIN_BRIGHTNESS,
        ),
        Field::NightStart => adjust_time(&mut schedule.night_start, direction, by_minutes),
        Field::DayStart => adjust_time(&mut schedule.day_start, direction, by_minutes),
        Field::Latitude => adjust_coordinate(&mut schedule.latitude, nudged, POLE),
        Field::Longitude => adjust_coordinate(&mut schedule.longitude, nudged, ANTIMERIDIAN),
        Field::Transition => {
            let moved: i32 = schedule.transition_minutes as i32 + direction as i32
                * by_minutes as i32;
            schedule.transition_minutes = if moved < 0 {
                0
            } else if moved > MAX_TRANSITION_MINUTES as i32 {
                MAX_TRANSITION_MINUTES
            } else {
                moved as u16
            };
        },
        _ => {},
    }
}

/// Moves a field up or down.
pub fn adjust_setting(
    settings: &mut Settings,
    field: Field,
    up: bool,
    fine: bool,
    nudged: Coordinate,
)
    ensures
        final(settings)@ == adjusted(old(settings)@, field, up, fine, nudged),
{
    let direction: i16 = if up {
        1
    } else {
        -1
    };
    let by_percent: i16 = if fine {
        1
    } else {
        5
    };
    proof {
        lemma_signed_steps(up, fine, direction as int);
    }
    match field {
        Field::Filter => set_filter(settings, up),
        Field::Mode => settings.automatic = up,
        Field::ManualWarmth => {
            let manual: &mut Levels = manual_levels(settings);
            adjust_percent(&mut manual.warmth, direction, by_percent, 0);
        },
        Field::ManualBrightness => {
            let manual: &mut Levels = manual_levels(settings);
            adjust_percent(&mut manual.brightness, direction, by_percent, MIN_BRIGHTNESS);
        },
        _ => adjust_schedule(&mut settings.schedule, field, up, fine, nudged),
    }
}

/// What comes of a change: settings that differ are sent.
pub open spec fn submitted(before: SettingsView, after: SettingsView) -> EffectView {
    if same_settings(after, before) {
        EffectView::Stay
    } else {
        EffectView::Submit(after)
    }
}

/// What comes of a key in a state of the interface. `nudged` is the selected coordinate, if one is
/// selected, moved by its step.
pub open spec fn effect_of(app: AppView, key: Key, fine: bool, nudged: Coordinate) -> EffectView {
    let settings = app.state.settings;
    match command_of(key) {
        Command::Quit => EffectView::Quit,
        Command::Decrease => submitted(
            settings,
            adjusted(settings, app.selected, false, fine, nudged),
        ),
        Command::Increase => submitted(
            settings,
            adjusted(settings, app.selected, true, fine, nudged),
        ),
        Command::Toggle => if switches(app.selected) {
            submitted(settings, toggled(settings, app.selected))
        } else {
            EffectView::Stay
        },
        _ => EffectView::Stay,
    }
}

/// The field that is selected after a key.
pub open spec fn selected_after(selected: Field, key: Key) -> Field {
    match command_of(key) {
        Command::Previous => FIELDS@[(field_index(selected) + 13) % 14],
        Command::Next => FIELDS@[(field_index(selected) + 1) % 14],
        _ => selected,
    }
}

/// What is said while there is no message.
pub open spec fn idle_text(transient: bool) -> Seq<char> {
    if transient {
        "Temporary session — changes last until exit"@
    } else {
        "Connected service — changes save immediately"@
    }
}

impl App {
    /// The interface at its start.
    pub fn new(state: RuntimeState, transient: bool, now: u64) -> (app: Self)
        ensures
            app@ == (AppView {
                state: state@,
                selected: Field::Mode,
                notice: None,
                transient,
                backend_available: true,
                last_refresh: now,
            }),
    {
        App {
            state,
            selected: Field::Mode,
            notice: None,
            transient,
            backend_available: true,
            last_refresh: now,
        }
    }

    /// Takes a key in.
    pub fn handle_key(&mut self, key: Key, fine: bool, nudged: Coordinate) -> (effect: Effect)
        ensures
            effect@ == effect_of(old(self)@, key, fine, nudged),
            final(self)@ == (AppView {
                selected: selected_after(old(self)@.selected, key),
                ..old(self)@
            }),
    {
        match read_key(key) {
            Command::Quit => Effect::Quit,
            Command::Previous => {
                self.selected = self.selected.previous();
                Effect::Stay
            },
            Command::Next => {
                self.selected = self.selected.next();
                Effect::Stay
            },
            Command::Decrease => self.adjust(false, fine, nudged),
            Command::Increase => self.adjust(true, fine, nudged),
            Command::Toggle => self.toggle(),
            Command::Nothing => Effect::Stay,
        }
    }

    /// Switches the selected field, if it is one that is switched.
    pub fn toggle(&self) -> (effect: Effect)
        ensures
            effect@ == (if switches(self@.selected) {
                submitted(self@.state.settings, toggled(self@.state.settings, self@.selected))
            } else {
                EffectView::Stay
            }),
    {
        if !self.selected.is_toggle() {
            return Effect::Stay;
        }
        let mut settings: Settings = self.state.settings.clone();
        toggle_setting(&mut settings, self.selected);
        self.edit(settings)
    }

    /// Moves the selected field.
    pub fn adjust(&self, up: bool, fine: bool, nudged: Coordinate) -> (effect: Effect)
        ensures
            effect@ == submitted(
                self@.state.settings,
                adjusted(self@.state.settings, self@.selected, up, fine, nudged),
            ),
    {
        let mut settings: Settings = self.state.settings.clone();
        adjust_setting(&mut settings, self.selected, up, fine, nudged);
        self.edit(settings)
    }

    fn edit(&self, settings: Settings) -> (effect: Effect)
        ensures
            effect@ == submitted(self@.state.settings, settings@),
    {
        if settings.same(&self.state.settings) {
            return Effect::Stay;
        }
        Effect::Submit(settings)
    }

    /// Takes in what the daemon answered to settings that were sent: its state, or what went wrong.
    pub fn finish_edit(&mut self, answer: Result<RuntimeState, String>, now: u64)
        requires
            now + NOTICE_MILLISECONDS <= u64::MAX,
        ensures
            final(self)@ == (match answer {
                Ok(state) => AppView {
                    state: state@,
                    backend_available: true,
                    notice: Some(passing_notice("Settings saved"@, now)),
                    last_refresh: now,
                    ..old(self)@
                },
                Err(error) => AppView {
                    notice: Some(failure_notice("Settings not saved: "@ + error@)),
                    last_refresh: now,
                    ..old(self)@
                },
            }),
    {
        match answer {
            Ok(state) => {
                self.state = state;
                self.backend_available = true;
                self.notice = Some(Notice::saved(now));
            },
            Err(error) => {
                let mut text: String = "Settings not saved: ".to_owned();
                text.append(error.as_str());
                self.notice = Some(Notice::error(text));
            },
        }
        self.last_refresh = now;
    }

    /// Whether it is time to ask the daemon for its state again.
    pub fn refresh_due(&self, now: u64) -> (due: bool)
        ensures
            due == (now - self@.last_refresh >= REFRESH_MILLISECONDS),
    {
        now >= self.last_refresh && now - self.last_refresh >= REFRESH_MILLISECONDS
    }

    /// Takes in what the daemon answered when it was asked for its state.
    pub fn refresh(&mut self, answer: Result<RuntimeState, String>, now: u64)
        requires
            now + NOTICE_MILLISECONDS <= u64::MAX,
        ensures
            final(self)@ == (match answer {
                Ok(state) => AppView {
                    state: state@,
                    backend_available: true,
                    notice: if old(self)@.backend_available {
                        old(self)@.notice
                    } else {
                        Some(passing_notice("Display backend reconnected"@, now))
                    },
                    last_refresh: now,
                    ..old(self)@
                },
                Err(error) => AppView {
                    backend_available: false,
                    notice: Some(failure_notice("Display backend unavailable: "@ + error@)),
                    last_refresh: now,
                    ..old(self)@
                },
            }),
    {
        match answer {
            Ok(state) => {
                self.state = state;
                if !self.backend_available {
                    self.notice = Some(Notice::reconnected(now));
                }
                self.backend_available = true;
            },
            Err(error) => {
                self.backend_available = false;
                let mut text: String = "Display backend unavailable: ".to_owned();
                text.append(error.as_str());
                self.notice = Some(Notice::error(text));
            },
        }
        self.last_refresh = now;
    }

    /// Takes a message away whose time is over.
    pub fn expire_notice(&mut self, now: u64)
        ensures
            final(self)@ == (AppView {
                notice: match old(self)@.notice {
                    Some(notice) => if notice.expires_at matches Some(end) && now >= end {
                        None
                    } else {
                        Some(notice)
                    },
                    None => None,
                },
                ..old(self)@
            }),
    {
        let over: bool = match &self.notice {
            Some(notice) => match notice.expires_at {
                Some(end) => now >= end,
                None => false,
            },
            None => false,
        };
        if over {
            self.notice = None;
        }
    }

    /// The message to show, and whether it is a failure.
    pub fn notice_text(&self) -> (message: (&str, bool))
        ensures
            message.0@ == shown_notice(self@).0,
            message.1 == shown_notice(self@).1,
    {
        match &self.notice {
            Some(notice) => (notice.text.as_str(), notice.error),
            None => if self.transient {
                ("Temporary session — changes last until exit", false)
            } else {
                ("Connected service — changes save immediately", false)
            },
        }
    }
}

/// The message to show, and whether it is a failure.
pub open spec fn shown_notice(app: AppView) -> (Seq<char>, bool) {
    match app.notice {
        Some(notice) => (notice.text, notice.error),
        None => (idle_text(app.transient), false),
    }
}

// ── what holds of every change ───────────────────────────────────────────────

/// Switching a field twice brings the settings back.
pub proof fn toggling_twice_changes_nothing(settings: SettingsView, field: Field)
    ensures
        toggled(toggled(settings, field), field) == settings,
{
}

/// A time that is moved names the minute that was moved.
pub proof fn moved_times_are_read_back(text: Seq<char>, by: int)
    requires
        time_of(text) is Ok,
    ensures
        time_of(moved_time(text, by)) == Ok::<int, ErrorView>(
            (time_of(text)->Ok_0 + by) % 1440,
        ),
{
    crate::config::clock_text_reads_back((time_of(text)->Ok_0 + by) % 1440);
}

proof fn lemma_steps(minute: int, up: bool, fine: bool)
    requires
        0 <= minute < 1440,
    ensures
        ((minute + time_step(up, fine)) % 1440 + time_step(!up, fine)) % 1440 == minute,
{
}

/// Moving a time forth and back brings it back.
pub proof fn time_steps_undo_each_other(text: Seq<char>, up: bool, fine: bool)
    requires
        time_of(text) is Ok,
    ensures
        time_of(moved_time(moved_time(text, time_step(up, fine)), time_step(!up, fine))) == time_of(
            text,
        ),
{
    times_lie_within_the_day(text);
    moved_times_are_read_back(text, time_step(up, fine));
    let moved = moved_time(text, time_step(up, fine));
    moved_times_are_read_back(moved, time_step(!up, fine));
    lemma_steps(time_of(text)->Ok_0, up, fine);
}

/// Moving a field keeps valid levels valid: a key cannot leave the range of a percentage, and a
/// level by hand always comes with the filter on in manual mode.
pub proof fn keys_keep_levels_valid(
    settings: SettingsView,
    field: Field,
    up: bool,
    fine: bool,
    nudged: Coordinate,
)
    requires
        crate::config::levels_fault(settings.manual) is None,
        crate::config::levels_fault(settings.schedule.day) is None,
        crate::config::levels_fault(settings.schedule.night) is None,
    ensures
        ({
            let after = adjusted(settings, field, up, fine, nudged);
            &&& crate::config::levels_fault(after.manual) is None
            &&& crate::config::levels_fault(after.schedule.day) is None
            &&& crate::config::levels_fault(after.schedule.night) is None
            &&& after.manual != settings.manual ==> after.enabled && !after.automatic
            &&& after.presets == settings.presets
        }),
{
}

// ── what keys do ─────────────────────────────────────────────────────────────

/// The number nearest to another within limits.
pub open spec fn kept_within(x: int, low: int, high: int) -> int {
    if x < low {
        low
    } else if x > high {
        high
    } else {
        x
    }
}

/// The settings that are in force after a key, if the daemon takes what it is sent.
pub open spec fn in_force(app: AppView, effect: EffectView) -> SettingsView {
    match effect {
        EffectView::Submit(settings) => settings,
        _ => app.state.settings,
    }
}

/// The keys that move a value up, and those that move it down.
pub open spec fn moves(key: Key, up: bool) -> bool {
    if up {
        key == Key::Right || key == Key::Char('l')
    } else {
        key == Key::Left || key == Key::Char('h')
    }
}

/// A key that moves a percentage of the schedule moves the very percentage that is selected, by one
/// with the fine step and by five without, within one hundred percent, and below by the least
/// brightness or by zero. Nothing else changes.
pub proof fn keys_move_the_selected_percentage(
    app: AppView,
    key: Key,
    up: bool,
    fine: bool,
    nudged: Coordinate,
)
    requires
        moves(key, up),
    ensures
        ({
            let before = app.state.settings;
            let after = in_force(app, effect_of(app, key, fine, nudged));
            let by = (if fine {
                1int
            } else {
                5
            }) * (if up {
                1int
            } else {
                -1
            });
            let schedule = before.schedule;
            &&& app.selected == Field::DayWarmth ==> after == (SettingsView {
                schedule: ScheduleView {
                    day: Levels {
                        warmth: kept_within(schedule.day.warmth + by, 0, 100) as u8,
                        brightness: schedule.day.brightness,
                    },
                    ..schedule
                },
                ..before
            })
            &&& app.selected == Field::DayBrightness ==> after == (SettingsView {
                schedule: ScheduleView {
                    day: Levels {
                        warmth: schedule.day.warmth,
                        brightness: kept_within(schedule.day.brightness + by, 10, 100) as u8,
                    },
                    ..schedule
                },
                ..before
            })
            &&& app.selected == Field::NightWarmth ==> after == (SettingsView {
                schedule: ScheduleView {
                    night: Levels {
                        warmth: kept_within(schedule.night.warmth + by, 0, 100) as u8,
                        brightness: schedule.night.brightness,
                    },
                    ..schedule
                },
                ..before
            })
            &&& app.selected == Field::NightBrightness ==> after == (SettingsView {
                schedule: ScheduleView {
                    night: Levels {
                        warmth: schedule.night.warmth,
                        brightness: kept_within(schedule.night.brightness + by, 10, 100) as u8,
                    },
                    ..schedule
                },
                ..before
            })
        }),
{
    lemma_staying(app, key, fine, nudged);
}

/// A key that moves a level by hand moves the one that is selected, in the same steps, and puts it
/// into force: with the filter on, in manual mode. Nothing else changes.
pub proof fn keys_move_levels_by_hand(
    app: AppView,
    key: Key,
    up: bool,
    fine: bool,
    nudged: Coordinate,
)
    requires
        moves(key, up),
    ensures
        ({
            let before = app.state.settings;
            let after = in_force(app, effect_of(app, key, fine, nudged));
            let by = (if fine {
                1int
            } else {
                5
            }) * (if up {
                1int
            } else {
                -1
            });
            &&& app.selected == Field::ManualWarmth ==> after == (SettingsView {
                enabled: true,
                automatic: false,
                manual: Levels {
                    warmth: kept_within(before.manual.warmth + by, 0, 100) as u8,
                    brightness: before.manual.brightness,
                },
                ..before
            })
            &&& app.selected == Field::ManualBrightness ==> after == (SettingsView {
                enabled: true,
                automatic: false,
                manual: Levels {
                    warmth: before.manual.warmth,
                    brightness: kept_within(before.manual.brightness + by, 10, 100) as u8,
                },
                ..before
            })
        }),
{
    lemma_staying(app, key, fine, nudged);
}

/// A key that moves a time moves the one that is selected, by one minute with the fine step and by
/// a quarter of an hour without, round the clock; what is no time stays. The transition moves in
/// the same steps, between nothing and four hours. Nothing else changes.
pub proof fn keys_move_the_selected_time(
    app: AppView,
    key: Key,
    up: bool,
    fine: bool,
    nudged: Coordinate,
)
    requires
        moves(key, up),
    ensures
        ({
            let before = app.state.settings;
            let after = in_force(app, effect_of(app, key, fine, nudged));
            let by = (if fine {
                1int
            } else {
                15
            }) * (if up {
                1int
            } else {
                -1
            });
            let schedule = before.schedule;
            &&& app.selected == Field::NightStart ==> after == (SettingsView {
                schedule: ScheduleView { night_start: after.schedule.night_start, ..schedule },
                ..before
            }) && match time_of(schedule.night_start) {
                Ok(minute) => time_of(after.schedule.night_start) == Ok::<int, ErrorView>(
                    (minute + by) % 1440,
                ),
                Err(_) => after.schedule.night_start == schedule.night_start,
            }
            &&& app.selected == Field::DayStart ==> after == (SettingsView {
                schedule: ScheduleView { day_start: after.schedule.day_start, ..schedule },
                ..before
            }) && match time_of(schedule.day_start) {
                Ok(minute) => time_of(after.schedule.day_start) == Ok::<int, ErrorView>(
                    (minute + by) % 1440,
                ),
                Err(_) => after.schedule.day_start == schedule.day_start,
            }
            &&& app.selected == Field::Transition ==> after == (SettingsView {
                schedule: ScheduleView {
                    transition_minutes: kept_within(
                        schedule.transition_minutes + by,
                        0,
                        240,
                    ) as u16,
                    ..schedule
                },
                ..before
            })
        }),
{
    lemma_staying(app, key, fine, nudged);
    let schedule = app.state.settings.schedule;
    let by = (if fine {
        1int
    } else {
        15
    }) * (if up {
        1int
    } else {
        -1
    });
    assert(time_step(up, fine) == by);
    if time_of(schedule.night_start) is Ok {
        moved_times_are_read_back(schedule.night_start, by);
    }
    if time_of(schedule.day_start) is Ok {
        moved_times_are_read_back(schedule.day_start, by);
    }
}

/// A key that moves a coordinate puts in place of the selected one what it was nudged to: as it is
/// within the limits of latitudes or longitudes, and at the limit on its side of zero beyond them.
/// Nothing else changes. Where the coordinate has that value already, nothing is sent.
pub proof fn keys_move_the_selected_coordinate(
    app: AppView,
    key: Key,
    up: bool,
    fine: bool,
    nudged: Coordinate,
)
    requires
        moves(key, up),
        nudged.is_number_spec(),
    ensures
        ({
            let before = app.state.settings;
            let effect = effect_of(app, key, fine, nudged);
            let schedule = before.schedule;
            &&& app.selected == Field::Latitude && effect is Submit ==> effect->Submit_0 == (
            SettingsView {
                schedule: ScheduleView { latitude: within_limit(nudged, POLE), ..schedule },
                ..before
            })
            &&& app.selected == Field::Longitude && effect is Submit ==> effect->Submit_0 == (
            SettingsView {
                schedule: ScheduleView {
                    longitude: within_limit(nudged, ANTIMERIDIAN),
                    ..schedule
                },
                ..before
            })
            &&& app.selected == Field::Latitude && effect is Stay ==> equal_angles(
                schedule.latitude,
                within_limit(nudged, POLE),
            )
            &&& app.selected == Field::Longitude && effect is Stay ==> equal_angles(
                schedule.longitude,
                within_limit(nudged, ANTIMERIDIAN),
            )
            &&& effect !is Quit
        }),
{
    equal_settings_agree(
        adjusted(app.state.settings, app.selected, up, fine, nudged),
        app.state.settings,
    );
}

/// An angle, or the limit on its side of zero if it lies beyond. The highest bit holds the sign.
pub open spec fn within_limit(angle: Coordinate, limit: u64) -> Coordinate {
    if angle.bits % 0x8000_0000_0000_0000 <= limit {
        angle
    } else {
        Coordinate { bits: (angle.bits / 0x8000_0000_0000_0000 * 0x8000_0000_0000_0000 + limit) as u64 }
    }
}

/// Whether two angles are equal: the two zeros are.
pub open spec fn equal_angles(a: Coordinate, b: Coordinate) -> bool {
    a.bits == b.bits || (a.bits % 0x8000_0000_0000_0000 == 0 && b.bits % 0x8000_0000_0000_0000 == 0)
}

/// A key that moves a switch turns it on or off, the mode to automatic or manual, and the timing to
/// the location or the clock, by its direction. Enter and the space bar turn the selected one of
/// these round, and leave every other field alone. Nothing else changes.
pub proof fn keys_turn_the_selected_switch(
    app: AppView,
    key: Key,
    up: bool,
    fine: bool,
    nudged: Coordinate,
)
    ensures
        ({
            let before = app.state.settings;
            let after = in_force(app, effect_of(app, key, fine, nudged));
            let turns = key == Key::Enter || key == Key::Char(' ');
            let located = before.schedule.timing == ScheduleTiming::Location;
            &&& moves(key, up) || turns ==> {
                &&& app.selected == Field::Filter ==> after == (SettingsView {
                    enabled: if turns {
                        !before.enabled
                    } else {
                        up
                    },
                    ..before
                })
                &&& app.selected == Field::Mode ==> after == (SettingsView {
                    automatic: if turns {
                        !before.automatic
                    } else {
                        up
                    },
                    ..before
                })
                &&& app.selected == Field::Timing ==> after == (SettingsView {
                    schedule: ScheduleView {
                        timing: if (if turns {
                            !located
                        } else {
                            up
                        }) {
                            ScheduleTiming::Location
                        } else {
                            ScheduleTiming::Fixed
                        },
                        ..before.schedule
                    },
                    ..before
                })
            }
            &&& turns && app.selected != Field::Filter && app.selected != Field::Mode
                && app.selected != Field::Timing ==> effect_of(app, key, fine, nudged) is Stay
        }),
{
    lemma_staying(app, key, fine, nudged);
}

proof fn lemma_staying(app: AppView, key: Key, fine: bool, nudged: Coordinate)
    ensures
        effect_of(app, key, fine, nudged) is Stay && (app.selected != Field::Latitude
            && app.selected != Field::Longitude) ==> {
            let before = app.state.settings;
            &&& command_of(key) == Command::Increase ==> adjusted(
                before,
                app.selected,
                true,
                fine,
                nudged,
            ) == before
            &&& command_of(key) == Command::Decrease ==> adjusted(
                before,
                app.selected,
                false,
                fine,
                nudged,
            ) == before
            &&& command_of(key) == Command::Toggle && switches(app.selected) ==> toggled(
                before,
                app.selected,
            ) == before
        },
{
    let before = app.state.settings;
    equal_settings_agree(adjusted(before, app.selected, true, fine, nudged), before);
    equal_settings_agree(adjusted(before, app.selected, false, fine, nudged), before);
    equal_settings_agree(toggled(before, app.selected), before);
}

/// Settings are sent only where a key changes them, if all their coordinates are numbers.
pub proof fn unchanged_settings_are_not_sent(
    app: AppView,
    key: Key,
    fine: bool,
    nudged: Coordinate,
)
    requires
        app.state.settings.schedule.latitude.is_number_spec(),
        app.state.settings.schedule.longitude.is_number_spec(),
        forall|i: int|
            0 <= i < app.state.settings.presets.len() ==> (
            #[trigger] app.state.settings.presets[i]).preset.schedule.latitude.is_number_spec()
                && app.state.settings.presets[i].preset.schedule.longitude.is_number_spec(),
    ensures
        effect_of(app, key, fine, nudged) matches EffectView::Submit(after) ==> after
            != app.state.settings,
{
    equal_settings_agree(app.state.settings, app.state.settings);
}

/// The keys `q` and Esc leave. Up, `k` and Shift-Tab go to the field above, Down, `j` and Tab to the
/// one below, round the list, and send nothing. No other key changes the selection, and none but the
/// ones named here and those that move or turn a value does anything.
pub proof fn keys_walk_the_fields(app: AppView, key: Key, fine: bool, nudged: Coordinate)
    ensures
        ({
            let effect = effect_of(app, key, fine, nudged);
            let after = selected_after(app.selected, key);
            let leaves = key == Key::Char('q') || key == Key::Esc;
            let above = key == Key::Up || key == Key::Char('k') || key == Key::BackTab;
            let below = key == Key::Down || key == Key::Char('j') || key == Key::Tab;
            let turns = key == Key::Enter || key == Key::Char(' ');
            &&& effect is Quit <==> leaves
            &&& below ==> after == field_below(app.selected) && effect is Stay
            &&& above ==> field_below(after) == app.selected && effect is Stay
            &&& !above && !below ==> after == app.selected
            &&& effect is Submit ==> turns || moves(key, true) || moves(key, false)
        }),
{
}

/// The field below another in the list; below the last comes the first.
pub open spec fn field_below(field: Field) -> Field {
    match field {
        Field::Mode => Field::Filter,
        Field::Filter => Field::ManualWarmth,
        Field::ManualWarmth => Field::ManualBrightness,
        Field::ManualBrightness => Field::Timing,
        Field::Timing => Field::DayWarmth,
        Field::DayWarmth => Field::DayBrightness,
        Field::DayBrightness => Field::NightWarmth,
        Field::NightWarmth => Field::NightBrightness,
        Field::NightBrightness => Field::NightStart,
        Field::NightStart => Field::DayStart,
        Field::DayStart => Field::Latitude,
        Field::Latitude => Field::Longitude,
        Field::Longitude => Field::Transition,
        Field::Transition => Field::Mode,
    }
}

/// A passing message is no failure and is over two seconds later; the message of a failure has no
/// end. A message is shown as it is; without one, the interface says whether changes last.
pub proof fn messages_pass_unless_they_tell_of_failures(app: AppView, text: Seq<char>, now: u64)
    requires
        now + 2000 <= u64::MAX,
    ensures
        passing_notice(text, now).text == text,
        !passing_notice(text, now).error,
        passing_notice(text, now).expires_at == Some((now + 2000) as u64),
        failure_notice(text).text == text,
        failure_notice(text).error,
        failure_notice(text).expires_at is None,
        app.notice matches Some(notice) ==> shown_notice(app).0 == notice.text && shown_notice(
            app,
        ).1 == notice.error,
        app.notice is None ==> shown_notice(app).0 == (if app.transient {
            "Temporary session — changes last until exit"@
        } else {
            "Connected service — changes save immediately"@
        }) && !shown_notice(app).1,
{
}

}
