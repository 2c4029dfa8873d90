//! The settings window: what its controls do and what they show.

use vstd::prelude::*;

use crate::config::{
    adding_is_lookup_update, ascending, clock_text, lemma_colon, levels_fault, lookup, names_of,
    new_preset_fault, parse_time, preset_of, presets_are_found_by_name, removing_is_lookup_update,
    same_settings, time_of, with_entry, with_preset, without_name, EntryView, Levels, Schedule,
    ScheduleTiming, ScheduleView, Settings, SettingsView, MAX_TRANSITION_MINUTES, MIN_BRIGHTNESS,
};
use crate::coordinate::{Coordinate, ANTIMERIDIAN, POLE};
use crate::dashboard::{
    format_percent, format_warmth, is_day, outputs_line, outputs_text, percent_text, schedule_runs,
    warmth_text,
};
use crate::protocol::{RuntimeState, RuntimeView};
use crate::schedule::{LocalTime, Sky};
use crate::text::{
    characters, decimal, decimal_text, optional, quoted, quoted_text, texts, trim, trimmed,
};
use crate::tui::idle_text;
use crate::ui_common::{
    allowed_in_name, backend_status, backend_text, field_help, field_index, format_hhmm, help_of,
    is_preset_name_char, phase_rgb, Field, TimelinePhase, TimelineSegment, TimelineView, FIELDS,
};

verus! {

// ── the window ───────────────────────────────────────────────────────────────

/// The sections of the window.
#[derive(Clone, Copy, Debug, PartialEq, Eq, Structural)]
pub enum Section {
    General,
    Manual,
    Schedule,
}

impl Section {
    /// The heading of the section.
    pub fn heading(self) -> (text: &'static str)
        ensures
            text@ == (match self {
                Section::General => "General"@,
                Section::Manual => "Manual override"@,
                Section::Schedule => "Schedule"@,
            }),
    {
        match self {
            Section::General => "General",
            Section::Manual => "Manual override",
            Section::Schedule => "Schedule",
        }
    }
}

/// What a setting is changed with.
#[derive(Clone, Copy, Debug, PartialEq, Eq, Structural)]
#[allow(inconsistent_fields)]
pub enum Control {
    /// A switch.
    Switch,
    /// A choice of presets, with buttons to apply, save and delete one.
    Presets,
    /// A choice of timings.
    Timing,
    /// A scale of percentages.
    Percent { minimum: u8, maximum: u8 },
    /// An entry for a time of day, of so many characters at most.
    Time { length: u16 },
    /// An angle in tenths of a degree, up to a limit on either side of zero.
    Degrees { limit: u16 },
    /// A number of minutes.
    Minutes { minimum: u16, maximum: u16 },
}

/// A row of the window.
#[derive(Clone, Copy, Debug)]
pub struct Row {
    pub section: Section,
    pub title: &'static str,
    pub subtitle: &'static str,
    pub control: Control,
}

/// A row of the window, with texts as sequences of characters.
pub struct RowView {
    pub section: Section,
    pub title: Seq<char>,
    pub subtitle: Seq<char>,
    pub control: Control,
}

impl View for Row {
    type V = RowView;

    open spec fn view(&self) -> RowView {
        RowView {
            section: self.section,
            title: self.title@,
            subtitle: self.subtitle@,
            control: self.control,
        }
    }
}

/// The row of a field.
pub open spec fn row_of(field: Field) -> RowView {
    match field {
        Field::Mode => RowView {
            section: Section::General,
            title: "Mode"@,
            subtitle: "Automatic schedule"@,
            control: Control::Switch,
        },
        Field::Filter => RowView {
            section: Section::General,
            title: "Filter"@,
            subtitle: "Color temperature filtering"@,
            control: Control::Switch,
        },
        Field::Preset => RowView {
            section: Section::General,
            title: "Preset"@,
            subtitle: "Named profiles"@,
            control: Control::Presets,
        },
        Field::ManualWarmth => RowView {
            section: Section::Manual,
            title: "Warmth"@,
            subtitle: ""@,
            control: Control::Percent { minimum: 0, maximum: 100 },
        },
        Field::ManualBrightness => RowView {
            section: Section::Manual,
            title: "Brightness"@,
            subtitle: ""@,
            control: Control::Percent { minimum: MIN_BRIGHTNESS, maximum: 100 },
        },
        Field::Timing => RowView {
            section: Section::Schedule,
            title: "Timing"@,
            subtitle: "How day and night times are chosen"@,
            control: Control::Timing,
        },
        Field::DayWarmth => RowView {
            section: Section::Schedule,
            title: "Day warmth"@,
            subtitle: ""@,
            control: Control::Percent { minimum: 0, maximum: 100 },
        },
        Field::DayBrightness => RowView {
            section: Section::Schedule,
            title: "Day brightness"@,
            subtitle: ""@,
            control: Control::Percent { minimum: MIN_BRIGHTNESS, maximum: 100 },
        },
        Field::NightWarmth => RowView {
            section: Section::Schedule,
            title: "Night warmth"@,
            subtitle: ""@,
            control: Control::Percent { minimum: 0, maximum: 100 },
        },
        Field::NightBrightness => RowView {
            section: Section::Schedule,
            title: "Night brightness"@,
            subtitle: ""@,
            control: Control::Percent { minimum: MIN_BRIGHTNESS, maximum: 100 },
        },
        Field::NightStart => RowView {
            section: Section::Schedule,
            title: "Night begins"@,
            subtitle: "Clock time"@,
            control: Control::Time { length: 5 },
        },
        Field::DayStart => RowView {
            section: Section::Schedule,
            title: "Day begins"@,
            subtitle: "Clock time"@,
            control: Control::Time { length: 5 },
        },
        Field::Latitude => RowView {
            section: Section::Schedule,
            title: "Latitude"@,
            subtitle: "Degrees north"@,
            control: Control::Degrees { limit: 90 },
        },
        Field::Longitude => RowView {
            section: Section::Schedule,
            title: "Longitude"@,
            subtitle: "Degrees east"@,
            control: Control::Degrees { limit: 180 },
        },
        Field::Transition => RowView {
            section: Section::Schedule,
            title: "Fade duration"@,
            subtitle: "Minutes"@,
            control: Control::Minutes { minimum: 0, maximum: MAX_TRANSITION_MINUTES },
        },
    }
}

/// The row of a field.
pub fn field_row(field: Field) -> (row: Row)
    ensures
        row@ == row_of(field),
{
    match field {
        Field::Mode => Row {
            section: Section::General,
            title: "Mode",
            subtitle: "Automatic schedule",
            control: Control::Switch,
        },
        Field::Filter => Row {
            section: Section::General,
            title: "Filter",
            subtitle: "Color temperature filtering",
            control: Control::Switch,
        },
        Field::Preset => Row {
            section: Section::General,
            title: "Preset",
            subtitle: "Named profiles",
            control: Control::Presets,
        },
        Field::ManualWarmth => Row {
            section: Section::Manual,
            title: "Warmth",
            subtitle: "",
            control: Control::Percent { minimum: 0, maximum: 100 },
        },
        Field::ManualBrightness => Row {
            section: Section::Manual,
            title: "Brightness",
            subtitle: "",
            control: Control::Percent { minimum: MIN_BRIGHTNESS, maximum: 100 },
        },
        Field::Timing => Row {
            section: Section::Schedule,
            title: "Timing",
            subtitle: "How day and night times are chosen",
            control: Control::Timing,
        },
        Field::DayWarmth => Row {
            section: Section::Schedule,
            title: "Day warmth",
            subtitle: "",
            control: Control::Percent { minimum: 0, maximum: 100 },
        },
        Field::DayBrightness => Row {
            section: Section::Schedule,
            title: "Day brightness",
            subtitle: "",
            control: Control::Percent { minimum: MIN_BRIGHTNESS, maximum: 100 },
        },
        Field::NightWarmth => Row {
            section: Section::Schedule,
            title: "Night warmth",
            subtitle: "",
            control: Control::Percent { minimum: 0, maximum: 100 },
        },
        Field::NightBrightness => Row {
            section: Section::Schedule,
            title: "Night brightness",
            subtitle: "",
            control: Control::Percent { minimum: MIN_BRIGHTNESS, maximum: 100 },
        },
        Field::NightStart => Row {
            section: Section::Schedule,
            title: "Night begins",
            subtitle: "Clock time",
            control: Control::Time { length: 5 },
        },
        Field::DayStart => Row {
            section: Section::Schedule,
            title: "Day begins",
            subtitle: "Clock time",
            control: Control::Time { length: 5 },
        },
        Field::Latitude => Row {
            section: Section::Schedule,
            title: "Latitude",
            subtitle: "Degrees north",
            control: Control::Degrees { limit: 90 },
        },
        Field::Longitude => Row {
            section: Section::Schedule,
            title: "Longitude",
            subtitle: "Degrees east",
            control: Control::Degrees { limit: 180 },
        },
        Field::Transition => Row {
            section: Section::Schedule,
            title: "Fade duration",
            subtitle: "Minutes",
            control: Control::Minutes { minimum: 0, maximum: MAX_TRANSITION_MINUTES },
        },
    }
}

/// The fields of a section, in the order of the window.
pub open spec fn fields_in(section: Section) -> Seq<Field> {
    match section {
        Section::General => FIELDS@.subrange(0, 3),
        Section::Manual => FIELDS@.subrange(3, 5),
        Section::Schedule => FIELDS@.subrange(5, 15),
    }
}

/// The fields of a section, in the order of the window.
pub fn section_fields(section: Section) -> (fields: Vec<Field>)
    ensures
        fields@ == fields_in(section),
{
    let all: [Field; 15] = FIELDS;
    let (from, to): (usize, usize) = match section {
        Section::General => (0, 3),
        Section::Manual => (3, 5),
        Section::Schedule => (5, 15),
    };
    let mut fields: Vec<Field> = Vec::new();
    let mut i: usize = from;
    while i < to
        invariant
            from <= i <= to <= 15,
            all@ == FIELDS@,
            fields@ == FIELDS@.subrange(from as int, i as int),
        decreases to - i,
    {
        fields.push(all[i]);
        i = i + 1;
        proof {
            assert(FIELDS@.subrange(from as int, i as int) =~= FIELDS@.subrange(
                from as int,
                i - 1,
            ).push(FIELDS@[i - 1]));
        }
    }
    proof {
        assert(fields@ =~= fields_in(section));
    }
    fields
}

/// Every field stands in exactly one section, the one that its row names.
pub proof fn sections_hold_the_fields(field: Field, section: Section)
    ensures
        fields_in(section).contains(field) <==> row_of(field).section == section,
{
    let index = crate::ui_common::field_index(field);
    crate::ui_common::next_and_previous_are_inverse(field);
    assert(FIELDS@[index] == field);
    if row_of(field).section == section {
        match section {
            Section::General => assert(fields_in(section)[index] == field),
            Section::Manual => assert(fields_in(section)[index - 3] == field),
            Section::Schedule => assert(fields_in(section)[index - 5] == field),
        }
    }
    if fields_in(section).contains(field) {
        let i = choose|i: int| 0 <= i < fields_in(section).len() && fields_in(section)[i] == field;
        let from = match section {
            Section::General => 0int,
            Section::Manual => 3,
            Section::Schedule => 5,
        };
        assert(FIELDS@[from + i] == field);
    }
}

// ── state ────────────────────────────────────────────────────────────────────

/// A message for the user, which may go away by itself. Times are in milliseconds on the clock of
/// the window.
#[derive(Debug)]
pub struct Notice {
    pub text: String,
    pub error: bool,
    pub expires_at: Option<u64>,
}

/// A message with its text as a sequence of characters.
pub struct NoticeView {
    pub text: Seq<char>,
    pub error: bool,
    pub expires_at: Option<u64>,
}

impl View for Notice {
    type V = NoticeView;

    open spec fn view(&self) -> NoticeView {
        NoticeView { text: self.text@, error: self.error, expires_at: self.expires_at }
    }
}

/// How long it is said that settings were saved, in milliseconds.
pub const SAVED_MILLISECONDS: u64 = 2000;

/// How long other news is shown, in milliseconds.
pub const INFO_MILLISECONDS: u64 = 3000;

/// That settings were saved.
pub open spec fn saved_notice(now: u64) -> NoticeView {
    NoticeView {
        text: "Settings saved"@,
        error: false,
        expires_at: Some((now + SAVED_MILLISECONDS) as u64),
    }
}

/// News that goes away by itself.
pub open spec fn info_notice(text: Seq<char>, now: u64) -> NoticeView {
    NoticeView { text, error: false, expires_at: Some((now + INFO_MILLISECONDS) as u64) }
}

/// A failure, which stays.
pub open spec fn error_notice(text: Seq<char>) -> NoticeView {
    NoticeView { text, error: true, expires_at: None }
}

impl Notice {
    pub fn saved(now: u64) -> (notice: Self)
        requires
            now + INFO_MILLISECONDS <= u64::MAX,
        ensures
            notice@ == saved_notice(now),
    {
        Notice {
            text: "Settings saved".to_owned(),
            error: false,
            expires_at: Some(now + SAVED_MILLISECONDS),
        }
    }

    pub fn info(text: String, now: u64) -> (notice: Self)
        requires
            now + INFO_MILLISECONDS <= u64::MAX,
        ensures
            notice@ == info_notice(text@, now),
    {
        Notice { text, error: false, expires_at: Some(now + INFO_MILLISECONDS) }
    }

    pub fn error(text: String) -> (notice: Self)
        ensures
            notice@ == error_notice(text@),
    {
        Notice { text, error: true, expires_at: None }
    }
}

impl Clone for Notice {
    fn clone(&self) -> (copy: Self)
        ensures
            copy@ == self@,
    {
        Notice { text: self.text.clone(), error: self.error, expires_at: self.expires_at }
    }
}

/// The state of the window.
#[derive(Debug)]
pub struct GuiState {
    pub state: RuntimeState,
    pub transient: bool,
    pub backend_available: bool,
    pub notice: Option<Notice>,
    pub selected: Field,
}

/// The state of the window, with texts as sequences of characters.
pub struct GuiView {
    pub state: RuntimeView,
    pub transient: bool,
    pub backend_available: bool,
    pub notice: Option<NoticeView>,
    pub selected: Field,
}

impl View for GuiState {
    type V = GuiView;

    open spec fn view(&self) -> GuiView {
        GuiView {
            state: self.state@,
            transient: self.transient,
            backend_available: self.backend_available,
            notice: match self.notice {
                Some(notice) => Some(notice@),
                None => None,
            },
            selected: self.selected,
        }
    }
}

impl Clone for GuiState {
    fn clone(&self) -> (copy: Self)
        ensures
            copy@ == self@,
    {
        GuiState {
            state: self.state.clone(),
            transient: self.transient,
            backend_available: self.backend_available,
            notice: match &self.notice {
                Some(notice) => Some(notice.clone()),
                None => None,
            },
            selected: self.selected,
        }
    }
}

/// A change that a control asks for.
#[derive(Debug)]
pub enum Edit {
    Automatic(bool),
    Enabled(bool),
    Timing(ScheduleTiming),
    ManualWarmth(u8),
    ManualBrightness(u8),
    DayWarmth(u8),
    DayBrightness(u8),
    NightWarmth(u8),
    NightBrightness(u8),
    NightStart(String),
    DayStart(String),
    Latitude(Coordinate),
    Longitude(Coordinate),
    Transition(u16),
    ApplyPreset(String),
    SavePreset(String),
    DeletePreset(String),
}

/// A change, with texts as sequences of characters.
pub enum EditView {
    Automatic(bool),
    Enabled(bool),
    Timing(ScheduleTiming),
    ManualWarmth(u8),
    ManualBrightness(u8),
    DayWarmth(u8),
    DayBrightness(u8),
    NightWarmth(u8),
    NightBrightness(u8),
    NightStart(Seq<char>),
    DayStart(Seq<char>),
    Latitude(Coordinate),
    Longitude(Coordinate),
    Transition(u16),
    ApplyPreset(Seq<char>),
    SavePreset(Seq<char>),
    DeletePreset(Seq<char>),
}

impl View for Edit {
    type V = EditView;

    open spec fn view(&self) -> EditView {
        match *self {
            Edit::Automatic(on) => EditView::Automatic(on),
            Edit::Enabled(on) => EditView::Enabled(on),
            Edit::Timing(timing) => EditView::Timing(timing),
            Edit::ManualWarmth(n) => EditView::ManualWarmth(n),
            Edit::ManualBrightness(n) => EditView::ManualBrightness(n),
            Edit::DayWarmth(n) => EditView::DayWarmth(n),
            Edit::DayBrightness(n) => EditView::DayBrightness(n),
            Edit::NightWarmth(n) => EditView::NightWarmth(n),
            Edit::NightBrightness(n) => EditView::NightBrightness(n),
            Edit::NightStart(time) => EditView::NightStart(time@),
            Edit::DayStart(time) => EditView::DayStart(time@),
            Edit::Latitude(degrees) => EditView::Latitude(degrees),
            Edit::Longitude(degrees) => EditView::Longitude(degrees),
            Edit::Transition(n) => EditView::Transition(n),
            Edit::ApplyPreset(name) => EditView::ApplyPreset(name@),
            Edit::SavePreset(name) => EditView::SavePreset(name@),
            Edit::DeletePreset(name) => EditView::DeletePreset(name@),
        }
    }
}

/// A brightness of at least the minimum.
pub open spec fn lit(brightness: u8) -> u8 {
    if brightness < MIN_BRIGHTNESS {
        MIN_BRIGHTNESS
    } else {
        brightness
    }
}

/// A schedule with a change made to it.
pub open spec fn edited_schedule(schedule: ScheduleView, edit: EditView) -> ScheduleView {
    match edit {
        EditView::Timing(timing) => ScheduleView { timing, ..schedule },
        EditView::DayWarmth(n) => ScheduleView {
            day: Levels { warmth: n, ..schedule.day },
            ..schedule
        },
        EditView::DayBrightness(n) => ScheduleView {
            day: Levels { brightness: lit(n), ..schedule.day },
            ..schedule
        },
        EditView::NightWarmth(n) => ScheduleView {
            night: Levels { warmth: n, ..schedule.night },
            ..schedule
        },
        EditView::NightBrightness(n) => ScheduleView {
            night: Levels { brightness: lit(n), ..schedule.night },
            ..schedule
        },
        EditView::NightStart(time) => ScheduleView { night_start: time, ..schedule },
        EditView::DayStart(time) => ScheduleView { day_start: time, ..schedule },
        EditView::Latitude(degrees) => ScheduleView { latitude: degrees, ..schedule },
        EditView::Longitude(degrees) => ScheduleView { longitude: degrees, ..schedule },
        EditView::Transition(n) => ScheduleView {
            transition_minutes: if n < MAX_TRANSITION_MINUTES {
                n
            } else {
                MAX_TRANSITION_MINUTES
            },
            ..schedule
        },
        _ => schedule,
    }
}

/// Settings with a change made to them. A level by hand turns the filter on in manual mode. A change
/// of presets that cannot be made changes nothing.
pub open spec fn edited(settings: SettingsView, edit: EditView) -> SettingsView {
    match edit {
        EditView::Automatic(on) => SettingsView { automatic: on, ..settings },
        EditView::Enabled(on) => SettingsView { enabled: on, ..settings },
        EditView::ManualWarmth(n) => SettingsView {
            enabled: true,
            automatic: false,
            manual: Levels { warmth: n, ..settings.manual },
            ..settings
        },
        EditView::ManualBrightness(n) => SettingsView {
            enabled: true,
            automatic: false,
            manual: Levels { brightness: lit(n), ..settings.manual },
            ..settings
        },
        EditView::ApplyPreset(name) => match lookup(settings.presets, name) {
            Some(preset) => with_preset(settings, preset),
            None => settings,
        },
        EditView::SavePreset(name) => if new_preset_fault(settings, name) is None {
            SettingsView {
                presets: with_entry(
                    settings.presets,
                    EntryView { name, preset: preset_of(settings) },
                ),
                ..settings
            }
        } else {
            settings
        },
        EditView::DeletePreset(name) => SettingsView {
            presets: without_name(settings.presets, name),
            ..settings
        },
        _ => SettingsView { schedule: edited_schedule(settings.schedule, edit), ..settings },
    }
}

/// The field that a change belongs to; a preset that is saved or deleted leaves the selection alone.
pub open spec fn edited_field(edit: EditView) -> Option<Field> {
    match edit {
        EditView::Automatic(_) => Some(Field::Mode),
        EditView::Enabled(_) => Some(Field::Filter),
        EditView::Timing(_) => Some(Field::Timing),
        EditView::ManualWarmth(_) => Some(Field::ManualWarmth),
        EditView::ManualBrightness(_) => Some(Field::ManualBrightness),
        EditView::DayWarmth(_) => Some(Field::DayWarmth),
        EditView::DayBrightness(_) => Some(Field::DayBrightness),
        EditView::NightWarmth(_) => Some(Field::NightWarmth),
        EditView::NightBrightness(_) => Some(Field::NightBrightness),
        EditView::NightStart(_) => Some(Field::NightStart),
        EditView::DayStart(_) => Some(Field::DayStart),
        EditView::Latitude(_) => Some(Field::Latitude),
        EditView::Longitude(_) => Some(Field::Longitude),
        EditView::Transition(_) => Some(Field::Transition),
        EditView::ApplyPreset(_) => Some(Field::Preset),
        EditView::SavePreset(_) => None,
        EditView::DeletePreset(_) => None,
    }
}

/// What the control of a field shows, or is set to.
#[derive(Debug)]
pub enum Shown {
    Switch(bool),
    /// The presets are shown by their names.
    Presets,
    /// The place in a list of choices.
    Choice(u32),
    Percent(u8),
    Time(String),
    Degrees(Coordinate),
    Minutes(u16),
}

/// What a control shows, with texts as sequences of characters.
pub enum ShownView {
    Switch(bool),
    Presets,
    Choice(u32),
    Percent(u8),
    Time(Seq<char>),
    Degrees(Coordinate),
    Minutes(u16),
}

impl View for Shown {
    type V = ShownView;

    open spec fn view(&self) -> ShownView {
        match *self {
            Shown::Switch(on) => ShownView::Switch(on),
            Shown::Presets => ShownView::Presets,
            Shown::Choice(place) => ShownView::Choice(place),
            Shown::Percent(n) => ShownView::Percent(n),
            Shown::Time(time) => ShownView::Time(time@),
            Shown::Degrees(degrees) => ShownView::Degrees(degrees),
            Shown::Minutes(n) => ShownView::Minutes(n),
        }
    }
}

/// What controls show.
pub open spec fn shown_views(inputs: Seq<Shown>) -> Seq<ShownView> {
    Seq::new(inputs.len(), |i: int| inputs[i]@)
}

/// The place of a timing in the list of timings.
pub open spec fn timing_place(timing: ScheduleTiming) -> u32 {
    match timing {
        ScheduleTiming::Fixed => 0,
        ScheduleTiming::Location => 1,
    }
}

/// What the control of a field shows of settings.
pub open spec fn value_of(settings: SettingsView, field: Field) -> ShownView {
    let schedule = settings.schedule;
    match field {
        Field::Mode => ShownView::Switch(settings.automatic),
        Field::Filter => ShownView::Switch(settings.enabled),
        Field::Preset => ShownView::Presets,
        Field::ManualWarmth => ShownView::Percent(settings.manual.warmth),
        Field::ManualBrightness => ShownView::Percent(settings.manual.brightness),
        Field::Timing => ShownView::Choice(timing_place(schedule.timing)),
        Field::DayWarmth => ShownView::Percent(schedule.day.warmth),
        Field::DayBrightness => ShownView::Percent(schedule.day.brightness),
        Field::NightWarmth => ShownView::Percent(schedule.night.warmth),
        Field::NightBrightness => ShownView::Percent(schedule.night.brightness),
        Field::NightStart => ShownView::Time(schedule.night_start),
        Field::DayStart => ShownView::Time(schedule.day_start),
        Field::Latitude => ShownView::Degrees(schedule.latitude),
        Field::Longitude => ShownView::Degrees(schedule.longitude),
        Field::Transition => ShownView::Minutes(schedule.transition_minutes),
    }
}

/// What the control of a field shows of settings.
pub fn shown_value(settings: &Settings, field: Field) -> (value: Shown)
    ensures
        value@ == value_of(settings@, field),
{
    let schedule: &Schedule = &settings.schedule;
    match field {
        Field::Mode => Shown::Switch(settings.automatic),
        Field::Filter => Shown::Switch(settings.enabled),
        Field::Preset => Shown::Presets,
        Field::ManualWarmth => Shown::Percent(settings.manual.warmth),
        Field::ManualBrightness => Shown::Percent(settings.manual.brightness),
        Field::Timing => match schedule.timing {
            ScheduleTiming::Fixed => Shown::Choice(0),
            ScheduleTiming::Location => Shown::Choice(1),
        },
        Field::DayWarmth => Shown::Percent(schedule.day.warmth),
        Field::DayBrightness => Shown::Percent(schedule.day.brightness),
        Field::NightWarmth => Shown::Percent(schedule.night.warmth),
        Field::NightBrightness => Shown::Percent(schedule.night.brightness),
        Field::NightStart => Shown::Time(schedule.night_start.clone()),
        Field::DayStart => Shown::Time(schedule.day_start.clone()),
        Field::Latitude => Shown::Degrees(schedule.latitude),
        Field::Longitude => Shown::Degrees(schedule.longitude),
        Field::Transition => Shown::Minutes(schedule.transition_minutes),
    }
}

/// The change that is asked for when the control of a field is set to a value.
pub open spec fn edit_of(field: Field, value: ShownView) -> Option<EditView> {
    match (field, value) {
        (Field::Mode, ShownView::Switch(on)) => Some(EditView::Automatic(on)),
        (Field::Filter, ShownView::Switch(on)) => Some(EditView::Enabled(on)),
        (Field::Timing, ShownView::Choice(place)) => Some(
            EditView::Timing(
                if place == 1 {
                    ScheduleTiming::Location
                } else {
                    ScheduleTiming::Fixed
                },
            ),
        ),
        (Field::ManualWarmth, ShownView::Percent(n)) => Some(EditView::ManualWarmth(n)),
        (Field::ManualBrightness, ShownView::Percent(n)) => Some(EditView::ManualBrightness(n)),
        (Field::DayWarmth, ShownView::Percent(n)) => Some(EditView::DayWarmth(n)),
        (Field::DayBrightness, ShownView::Percent(n)) => Some(EditView::DayBrightness(n)),
        (Field::NightWarmth, ShownView::Percent(n)) => Some(EditView::NightWarmth(n)),
        (Field::NightBrightness, ShownView::Percent(n)) => Some(EditView::NightBrightness(n)),
        (Field::NightStart, ShownView::Time(time)) => Some(EditView::NightStart(time)),
        (Field::DayStart, ShownView::Time(time)) => Some(EditView::DayStart(time)),
        (Field::Latitude, ShownView::Degrees(degrees)) => Some(EditView::Latitude(degrees)),
        (Field::Longitude, ShownView::Degrees(degrees)) => Some(EditView::Longitude(degrees)),
        (Field::Transition, ShownView::Minutes(n)) => Some(EditView::Transition(n)),
        _ => None,
    }
}

/// The change that is asked for when the control of a field is set to a value. Presets are changed
/// with buttons.
pub fn input_edit(field: Field, value: Shown) -> (edit: Option<Edit>)
    ensures
        match edit {
            Some(e) => edit_of(field, value@) == Some(e@),
            None => edit_of(field, value@) is None,
        },
{
    match (field, value) {
        (Field::Mode, Shown::Switch(on)) => Some(Edit::Automatic(on)),
        (Field::Filter, Shown::Switch(on)) => Some(Edit::Enabled(on)),
        (Field::Timing, Shown::Choice(place)) => Some(
            Edit::Timing(
                if place == 1 {
                    ScheduleTiming::Location
                } else {
                    ScheduleTiming::Fixed
                },
            ),
        ),
        (Field::ManualWarmth, Shown::Percent(n)) => Some(Edit::ManualWarmth(n)),
        (Field::ManualBrightness, Shown::Percent(n)) => Some(Edit::ManualBrightness(n)),
        (Field::DayWarmth, Shown::Percent(n)) => Some(Edit::DayWarmth(n)),
        (Field::DayBrightness, Shown::Percent(n)) => Some(Edit::DayBrightness(n)),
        (Field::NightWarmth, Shown::Percent(n)) => Some(Edit::NightWarmth(n)),
        (Field::NightBrightness, Shown::Percent(n)) => Some(Edit::NightBrightness(n)),
        (Field::NightStart, Shown::Time(time)) => Some(Edit::NightStart(time)),
        (Field::DayStart, Shown::Time(time)) => Some(Edit::DayStart(time)),
        (Field::Latitude, Shown::Degrees(degrees)) => Some(Edit::Latitude(degrees)),
        (Field::Longitude, Shown::Degrees(degrees)) => Some(Edit::Longitude(degrees)),
        (Field::Transition, Shown::Minutes(n)) => Some(Edit::Transition(n)),
        _ => None,
    }
}

/// The text that is refused because it is no time of day.
pub open spec fn refused_time(edit: Option<EditView>) -> Option<Seq<char>> {
    match edit {
        Some(EditView::NightStart(time)) => if time_of(time) is Err {
            Some(time)
        } else {
            None
        },
        Some(EditView::DayStart(time)) => if time_of(time) is Err {
            Some(time)
        } else {
            None
        },
        _ => None,
    }
}

/// The window with the message that a text is no time of day.
pub open spec fn with_refused_time(gui: GuiView, text: Seq<char>) -> GuiView {
    GuiView {
        notice: Some(error_notice("Invalid time "@ + quoted_text(text) + "; use HH:MM"@)),
        ..gui
    }
}

/// What is said of a change of presets.
pub open spec fn edit_news(edit: EditView) -> Option<Seq<char>> {
    match edit {
        EditView::ApplyPreset(name) => Some("Applied preset "@ + quoted_text(name)),
        EditView::SavePreset(name) => Some("Preset "@ + quoted_text(name) + " saved"@),
        EditView::DeletePreset(name) => Some("Preset "@ + quoted_text(name) + " deleted"@),
        _ => None,
    }
}

fn at_least_minimum(brightness: u8) -> (r: u8)
    ensures
        r == lit(brightness),
{
    if brightness < MIN_BRIGHTNESS {
        MIN_BRIGHTNESS
    } else {
        brightness
    }
}

/// Makes a change to settings.
pub fn edit_settings(settings: &mut Settings, edit: &Edit)
    ensures
        final(settings)@ == edited(old(settings)@, edit@),
{
    match edit {
        Edit::Automatic(on) => settings.automatic = *on,
        Edit::Enabled(on) => settings.enabled = *on,
        Edit::Timing(timing) => settings.schedule.timing = *timing,
        Edit::ManualWarmth(n) => {
            settings.enabled = true;
            settings.automatic = false;
            settings.manual.warmth = *n;
        },
        Edit::ManualBrightness(n) => {
            settings.enabled = true;
            settings.automatic = false;
            settings.manual.brightness = at_least_minimum(*n);
        },
        Edit::DayWarmth(n) => settings.schedule.day.warmth = *n,
        Edit::DayBrightness(n) => settings.schedule.day.brightness = at_least_minimum(*n),
        Edit::NightWarmth(n) => settings.schedule.night.warmth = *n,
        Edit::NightBrightness(n) => settings.schedule.night.brightness = at_least_minimum(*n),
        Edit::NightStart(time) => settings.schedule.night_start = time.clone(),
        Edit::DayStart(time) => settings.schedule.day_start = time.clone(),
        Edit::Latitude(degrees) => settings.schedule.latitude = *degrees,
        Edit::Longitude(degrees) => settings.schedule.longitude = *degrees,
        Edit::Transition(n) => {
            settings.schedule.transition_minutes = if *n < MAX_TRANSITION_MINUTES {
                *n
            } else {
                MAX_TRANSITION_MINUTES
            };
        },
        Edit::ApplyPreset(name) => {
            let _ = settings.apply_preset(name.as_str());
        },
        Edit::SavePreset(name) => {
            let _ = settings.save_preset(name.as_str());
        },
        Edit::DeletePreset(name) => {
            let _ = settings.delete_preset(name.as_str());
        },
    }
}

fn field_of(edit: &Edit) -> (field: Option<Field>)
    ensures
        field == edited_field(edit@),
{
    match edit {
        Edit::Automatic(_) => Some(Field::Mode),
        Edit::Enabled(_) => Some(Field::Filter),
        Edit::Timing(_) => Some(Field::Timing),
        Edit::ManualWarmth(_) => Some(Field::ManualWarmth),
        Edit::ManualBrightness(_) => Some(Field::ManualBrightness),
        Edit::DayWarmth(_) => Some(Field::DayWarmth),
        Edit::DayBrightness(_) => Some(Field::DayBrightness),
        Edit::NightWarmth(_) => Some(Field::NightWarmth),
        Edit::NightBrightness(_) => Some(Field::NightBrightness),
        Edit::NightStart(_) => Some(Field::NightStart),
        Edit::DayStart(_) => Some(Field::DayStart),
        Edit::Latitude(_) => Some(Field::Latitude),
        Edit::Longitude(_) => Some(Field::Longitude),
        Edit::Transition(_) => Some(Field::Transition),
        Edit::ApplyPreset(_) => Some(Field::Preset),
        Edit::SavePreset(_) => None,
        Edit::DeletePreset(_) => None,
    }
}

fn news_of(edit: &Edit) -> (news: Option<String>)
    ensures
        optional(news) == edit_news(edit@),
{
    match edit {
        Edit::ApplyPreset(name) => {
            let mut text: String = "Applied preset ".to_owned();
            text.append(quoted(name.as_str()).as_str());
            Some(text)
        },
        Edit::SavePreset(name) => {
            let mut text: String = "Preset ".to_owned();
            text.append(quoted(name.as_str()).as_str());
            text.append(" saved");
            Some(text)
        },
        Edit::DeletePreset(name) => {
            let mut text: String = "Preset ".to_owned();
            text.append(quoted(name.as_str()).as_str());
            text.append(" deleted");
            Some(text)
        },
        _ => None,
    }
}

/// A message whose time is over goes away.
pub open spec fn unexpired(notice: Option<NoticeView>, now: u64) -> Option<NoticeView> {
    match notice {
        Some(notice) => if notice.expires_at matches Some(end) && now >= end {
            None
        } else {
            Some(notice)
        },
        None => None,
    }
}

/// What is said of a state that the daemon answered with: that it is back, or that something may
/// keep displays from following the filter, unless that is said already.
pub open spec fn state_news(
    notice: Option<NoticeView>,
    was_available: bool,
    conflict: Option<Seq<char>>,
    now: u64,
) -> Option<NoticeView> {
    if !was_available {
        Some(info_notice("Display backend reconnected"@, now))
    } else {
        match conflict {
            Some(conflict) => {
                let text = "Conflict: "@ + conflict;
                if notice matches Some(shown) && shown.text == text {
                    notice
                } else {
                    Some(error_notice(text))
                }
            },
            None => notice,
        }
    }
}

/// What is wrong with a name that was typed in for a preset.
pub open spec fn typed_name_fault(name: Seq<char>) -> Option<Seq<char>> {
    if name.len() == 0 {
        Some("Preset name must not be empty"@)
    } else if exists|i: int| 0 <= i < name.len() && !allowed_in_name(#[trigger] name[i]) {
        Some("Preset names may use letters, digits, - and _"@)
    } else {
        None
    }
}

fn check_typed_name(name: &str) -> (fault: Option<&'static str>)
    ensures
        match fault {
            Some(text) => typed_name_fault(name@) == Some(text@),
            None => typed_name_fault(name@) is None,
        },
{
    let chars: Vec<char> = characters(name);
    if chars.len() == 0 {
        return Some("Preset name must not be empty");
    }
    let mut i: usize = 0;
    while i < chars.len()
        invariant
            chars@ == name@,
            chars.len() > 0,
            i <= chars.len(),
            forall|j: int| 0 <= j < i ==> allowed_in_name(#[trigger] name@[j]),
        decreases chars.len() - i,
    {
        if !is_preset_name_char(chars[i]) {
            assert(!allowed_in_name(name@[i as int]));
            return Some("Preset names may use letters, digits, - and _");
        }
        i = i + 1;
    }
    None
}

impl GuiState {
    /// The window at its start.
    pub fn new(state: RuntimeState, transient: bool) -> (gui: Self)
        ensures
            gui@ == (GuiView {
                state: state@,
                transient,
                backend_available: true,
                notice: None,
                selected: Field::Mode,
            }),
    {
        GuiState {
            state,
            transient,
            backend_available: true,
            notice: None,
            selected: Field::Mode,
        }
    }

    /// Takes a message away whose time is over.
    pub fn expire_notice(&mut self, now: u64)
        ensures
            final(self)@ == (GuiView { notice: unexpired(old(self)@.notice, now), ..old(self)@ }),
    {
        let over: bool = match &self.notice {
            Some(notice) => match notice.expires_at {
                Some(end) => now >= end,
                None => false,
            },
            None => false,
        };
        if over {
            self.notice = None;
        }
    }

    /// The message to show, and whether it is a failure.
    pub fn notice_text(&self) -> (message: (String, bool))
        ensures
            message.0@ == shown_notice(self@).0,
            message.1 == shown_notice(self@).1,
    {
        match &self.notice {
            Some(notice) => (notice.text.clone(), notice.error),
            None => if self.transient {
                ("Temporary session — changes last until exit".to_owned(), false)
            } else {
                ("Connected service — changes save immediately".to_owned(), false)
            },
        }
    }

    /// Takes in what the daemon answered when it was asked for its state, once a second.
    pub fn poll(&mut self, answer: Result<RuntimeState, String>, now: u64)
        requires
            now + INFO_MILLISECONDS <= u64::MAX,
        ensures
            final(self)@ == (match answer {
                Ok(state) => GuiView {
                    state: state@,
                    backend_available: true,
                    notice: state_news(
                        unexpired(old(self)@.notice, now),
                        old(self)@.backend_available,
                        state@.conflict,
                        now,
                    ),
                    ..old(self)@
                },
                Err(error) => GuiView {
                    backend_available: false,
                    notice: Some(error_notice("Display backend unavailable: "@ + error@)),
                    ..old(self)@
                },
            }),
    {
        self.expire_notice(now);
        match answer {
            Ok(state) => {
                let was_available: bool = self.backend_available;
                self.state = state;
                self.backend_available = true;
                if !was_available {
                    self.notice = Some(
                        Notice::info("Display backend reconnected".to_owned(), now),
                    );
                } else if let Some(conflict) = &self.state.conflict {
                    let mut text: String = "Conflict: ".to_owned();
                    text.append(conflict.as_str());
                    let already: bool = match &self.notice {
                        Some(notice) => *notice.text.as_str() == *text.as_str(),
                        None => false,
                    };
                    if !already {
                        self.notice = Some(Notice::error(text));
                    }
                }
            },
            Err(error) => {
                self.backend_available = false;
                let mut text: String = "Display backend unavailable: ".to_owned();
                text.append(error.as_str());
                self.notice = Some(Notice::error(text));
            },
        }
    }

    /// The settings to send for a change, if it changes anything.
    pub fn apply_edit(&self, edit: &Edit) -> (settings: Option<Settings>)
        ensures
            ({
                let before = self@.state.settings;
                let after = edited(before, edit@);
                match settings {
                    Some(s) => !same_settings(after, before) && s@ == after,
                    None => same_settings(after, before),
                }
            }),
    {
        let mut settings: Settings = self.state.settings.clone();
        edit_settings(&mut settings, edit);
        if settings.same(&self.state.settings) {
            return None;
        }
        Some(settings)
    }

    /// Takes in what the daemon answered to settings that were sent. A failure that is shown stays
    /// until it is resolved.
    pub fn finish_edit(&mut self, answer: Result<RuntimeState, String>, now: u64)
        requires
            now + INFO_MILLISECONDS <= u64::MAX,
        ensures
            final(self)@ == (match answer {
                Ok(state) => GuiView {
                    state: state@,
                    backend_available: true,
                    notice: if old(self)@.notice matches Some(notice) && notice.expires_at is None {
                        old(self)@.notice
                    } else {
                        Some(saved_notice(now))
                    },
                    ..old(self)@
                },
                Err(error) => GuiView {
                    notice: Some(error_notice("Settings not saved: "@ + error@)),
                    ..old(self)@
                },
            }),
    {
        match answer {
            Ok(state) => {
                self.state = state;
                self.backend_available = true;
                let stays: bool = match &self.notice {
                    Some(notice) => notice.expires_at.is_none(),
                    None => false,
                };
                if !stays {
                    self.notice = Some(Notice::saved(now));
                }
            },
            Err(error) => {
                let mut text: String = "Settings not saved: ".to_owned();
                text.append(error.as_str());
                self.notice = Some(Notice::error(text));
            },
        }
    }

    /// Moves the selection to the field of a change, and says what a change of presets came to.
    pub fn after_edit(&mut self, edit: &Edit, now: u64)
        requires
            now + INFO_MILLISECONDS <= u64::MAX,
        ensures
            final(self)@ == (GuiView {
                selected: match edited_field(edit@) {
                    Some(field) => field,
                    None => old(self)@.selected,
                },
                notice: match edit_news(edit@) {
                    Some(text) => Some(info_notice(text, now)),
                    None => old(self)@.notice,
                },
                ..old(self)@
            }),
    {
        if let Some(field) = field_of(edit) {
            self.selected = field;
        }
        if let Some(text) = news_of(edit) {
            self.notice = Some(Notice::info(text, now));
        }
    }

    /// Checks a time that was typed in; the result says whether it is one. What is not is refused
    /// with a message.
    pub fn check_time(&mut self, text: &str) -> (valid: bool)
        ensures
            valid == (time_of(text@) is Ok),
            final(self)@ == (if valid {
                old(self)@
            } else {
                with_refused_time(old(self)@, text@)
            }),
    {
        match parse_time(text) {
            Ok(_) => true,
            Err(_) => {
                let mut message: String = "Invalid time ".to_owned();
                message.append(quoted(text).as_str());
                message.append("; use HH:MM");
                self.notice = Some(Notice::error(message));
                false
            },
        }
    }

    /// Takes in what the control of a field was set to, and gives the change that is asked for.
    /// While the window is being filled, controls change without the user, and nothing is asked
    /// for. A text that is no time of day is refused with a message.
    pub fn take_input(&mut self, field: Field, value: Shown, filling: bool) -> (edit: Option<Edit>)
        ensures
            ({
                let asked = edit_of(field, value@);
                if filling {
                    edit is None && final(self)@ == old(self)@
                } else if refused_time(asked) is Some {
                    edit is None && final(self)@ == with_refused_time(
                        old(self)@,
                        refused_time(asked)->0,
                    )
                } else {
                    final(self)@ == old(self)@ && match edit {
                        Some(e) => asked == Some(e@),
                        None => asked is None,
                    }
                }
            }),
    {
        if filling {
            return None;
        }
        let edit: Option<Edit> = input_edit(field, value);
        let valid: bool = match &edit {
            Some(Edit::NightStart(time)) => self.check_time(time.as_str()),
            Some(Edit::DayStart(time)) => self.check_time(time.as_str()),
            _ => true,
        };
        if valid {
            edit
        } else {
            None
        }
    }

    /// The change that is asked for when the selected preset is to be applied. Without one there is
    /// a message instead.
    pub fn apply_selected(&mut self, index: u32) -> (edit: Option<Edit>)
        ensures
            ({
                let presets = old(self)@.state.settings.presets;
                if index < presets.len() {
                    edit matches Some(e) && e@ == EditView::ApplyPreset(presets[index as int].name)
                        && final(self)@ == old(self)@
                } else {
                    edit is None && final(self)@ == (GuiView {
                        notice: Some(error_notice("No presets yet — save one first"@)),
                        ..old(self)@
                    })
                }
            }),
    {
        match self.selected_preset_name(index) {
            Some(name) => Some(Edit::ApplyPreset(name)),
            None => {
                self.nothing_to_apply();
                None
            },
        }
    }

    /// The preset whose deletion is to be asked about. Without one there is a message instead.
    pub fn delete_selected(&mut self, index: u32) -> (name: Option<String>)
        ensures
            ({
                let presets = old(self)@.state.settings.presets;
                if index < presets.len() {
                    optional(name) == Some(presets[index as int].name) && final(self)@ == old(
                        self,
                    )@
                } else {
                    name is None && final(self)@ == (GuiView {
                        notice: Some(error_notice("No preset selected"@)),
                        ..old(self)@
                    })
                }
            }),
    {
        let name: Option<String> = self.selected_preset_name(index);
        if name.is_none() {
            self.nothing_to_delete();
        }
        name
    }

    /// The name of the preset at a place in the list.
    pub fn selected_preset_name(&self, index: u32) -> (name: Option<String>)
        ensures
            optional(name) == (if index < self@.state.settings.presets.len() {
                Some(self@.state.settings.presets[index as int].name)
            } else {
                None
            }),
    {
        if (index as usize) < self.state.settings.presets.len() {
            Some(self.state.settings.presets.entry(index as usize).name.clone())
        } else {
            None
        }
    }

    /// Says that there is no preset to apply.
    pub fn nothing_to_apply(&mut self)
        ensures
            final(self)@ == (GuiView {
                notice: Some(error_notice("No presets yet — save one first"@)),
                ..old(self)@
            }),
    {
        self.notice = Some(Notice::error("No presets yet — save one first".to_owned()));
    }

    /// Says that there is no preset to delete.
    pub fn nothing_to_delete(&mut self)
        ensures
            final(self)@ == (GuiView {
                notice: Some(error_notice("No preset selected"@)),
                ..old(self)@
            }),
    {
        self.notice = Some(Notice::error("No preset selected".to_owned()));
    }

    /// Checks a name that was typed in for a preset, without the white space round it. One that
    /// will not do is refused with a message.
    pub fn prompt_save_preset(&mut self, typed: &str) -> (edit: Option<Edit>)
        ensures
            match typed_name_fault(trimmed(typed@)) {
                None => edit matches Some(e) && e@ == EditView::SavePreset(trimmed(typed@))
                    && final(self)@ == old(self)@,
                Some(text) => edit is None && final(self)@ == (GuiView {
                    notice: Some(error_notice(text)),
                    ..old(self)@
                }),
            },
    {
        let name: String = trim(typed);
        match check_typed_name(name.as_str()) {
            None => Some(Edit::SavePreset(name)),
            Some(text) => {
                self.notice = Some(Notice::error(text.to_owned()));
                None
            },
        }
    }

    /// Takes note that the list of presets is in use, unless the window is being filled.
    pub fn select_presets(&mut self, filling: bool)
        ensures
            final(self)@ == (if filling {
                old(self)@
            } else {
                GuiView { selected: Field::Preset, ..old(self)@ }
            }),
    {
        if !filling {
            self.selected = Field::Preset;
        }
    }
}

/// The question whether to delete a preset.
pub fn delete_question(name: &str) -> (text: String)
    ensures
        text@ == "Delete preset "@ + quoted_text(name@) + "?"@,
{
    let mut text: String = "Delete preset ".to_owned();
    text.append(quoted(name).as_str());
    text.append("?");
    text
}

/// The message to show, and whether it is a failure.
pub open spec fn shown_notice(gui: GuiView) -> (Seq<char>, bool) {
    match gui.notice {
        Some(notice) => (notice.text, notice.error),
        None => (idle_text(gui.transient), false),
    }
}

// ── contents ─────────────────────────────────────────────────────────────────

/// A band of the timeline: its minutes, its colour in hundredths, and whether it is narrower than
/// the timeline is high.
#[derive(Clone, Copy, Debug, PartialEq, Eq)]
pub struct Band {
    pub start: u16,
    pub end: u16,
    pub colour: (u8, u8, u8),
    pub narrow: bool,
}

/// The band of a segment. Fades are narrow.
pub open spec fn band_of(segment: TimelineSegment, active: bool) -> Band {
    Band {
        start: segment.start,
        end: segment.end,
        colour: phase_rgb(segment.phase, active),
        narrow: segment.phase == TimelinePhase::EveningFade || segment.phase
            == TimelinePhase::MorningFade,
    }
}

/// The bands of a timeline.
pub fn paint_timeline(timeline: &TimelineView, active: bool) -> (bands: Vec<Band>)
    ensures
        bands@ == Seq::new(
            timeline.segments@.len(),
            |i: int| band_of(timeline.segments@[i], active),
        ),
{
    let mut bands: Vec<Band> = Vec::new();
    for i in 0..timeline.segments.len()
        invariant
            bands.len() == i,
            forall|j: int|
                0 <= j < i ==> #[trigger] bands@[j] == band_of(timeline.segments@[j], active),
    {
        let segment: TimelineSegment = timeline.segments[i];
        let narrow: bool = match segment.phase {
            TimelinePhase::EveningFade | TimelinePhase::MorningFade => true,
            _ => false,
        };
        bands.push(
            Band {
                start: segment.start,
                end: segment.end,
                colour: segment.phase.rgb(active),
                narrow,
            },
        );
    }
    proof {
        assert(bands@ =~= Seq::new(
            timeline.segments@.len(),
            |i: int| band_of(timeline.segments@[i], active),
        ));
    }
    bands
}

/// The title and the legend of the timeline.
pub open spec fn timeline_texts(view: Option<TimelineView>, active: bool) -> (Seq<char>, Seq<char>) {
    match view {
        Some(view) => if active {
            (
                "Today · day "@ + clock_text(view.day_start as int % 1440) + " · night "@
                    + clock_text(view.night_start as int % 1440),
                "Day begins "@ + clock_text(view.day_start as int % 1440) + "   Night begins "@
                    + clock_text(view.night_start as int % 1440) + "   Fade "@ + decimal_text(
                    view.transition_minutes as int,
                ) + " min   Now "@ + clock_text(view.now_minute as int % 1440),
            )
        } else {
            (
                "Today · inactive"@,
                "Schedule coloring is inactive while the filter is off or in manual mode."@,
            )
        },
        None => ("Today"@, "Schedule times are invalid"@),
    }
}

fn format_timeline(view: &Option<TimelineView>, active: bool) -> (texts: (String, String))
    ensures
        texts.0@ == timeline_texts(*view, active).0,
        texts.1@ == timeline_texts(*view, active).1,
{
    match view {
        Some(view) => if active {
            let mut title: String = "Today · day ".to_owned();
            title.append(format_hhmm(view.day_start).as_str());
            title.append(" · night ");
            title.append(format_hhmm(view.night_start).as_str());
            let mut legend: String = "Day begins ".to_owned();
            legend.append(format_hhmm(view.day_start).as_str());
            legend.append("   Night begins ");
            legend.append(format_hhmm(view.night_start).as_str());
            legend.append("   Fade ");
            legend.append(decimal(view.transition_minutes as u32).as_str());
            legend.append(" min   Now ");
            legend.append(format_hhmm(view.now_minute).as_str());
            (title, legend)
        } else {
            (
                "Today · inactive".to_owned(),
                "Schedule coloring is inactive while the filter is off or in manual mode.".to_owned(),
            )
        },
        None => ("Today".to_owned(), "Schedule times are invalid".to_owned()),
    }
}

/// What the window shows.
#[derive(Debug)]
pub struct Contents {
    pub daemon: String,
    pub outputs: String,
    pub warmth: String,
    pub warmth_percent: u8,
    pub brightness: String,
    pub brightness_percent: u8,
    pub timeline_title: String,
    pub timeline_legend: String,
    pub timeline_active: bool,
    pub preset_names: Vec<String>,
    pub preset_selected: Option<u32>,
    /// What the controls show, in the order of the fields.
    pub inputs: Vec<Shown>,
    pub manual_usable: bool,
    pub schedule_usable: bool,
    pub times_usable: bool,
    pub coordinates_usable: bool,
    pub presets_usable: bool,
    pub help: String,
    pub notice: String,
    pub notice_error: bool,
}

/// What the window shows, with texts as sequences of characters.
pub struct ContentsView {
    pub daemon: Seq<char>,
    pub outputs: Seq<char>,
    pub warmth: Seq<char>,
    pub warmth_percent: u8,
    pub brightness: Seq<char>,
    pub brightness_percent: u8,
    pub timeline_title: Seq<char>,
    pub timeline_legend: Seq<char>,
    pub timeline_active: bool,
    pub preset_names: Seq<Seq<char>>,
    pub preset_selected: Option<u32>,
    pub inputs: Seq<ShownView>,
    pub manual_usable: bool,
    pub schedule_usable: bool,
    pub times_usable: bool,
    pub coordinates_usable: bool,
    pub presets_usable: bool,
    pub help: Seq<char>,
    pub notice: Seq<char>,
    pub notice_error: bool,
}

impl View for Contents {
    type V = ContentsView;

    open spec fn view(&self) -> ContentsView {
        ContentsView {
            daemon: self.daemon@,
            outputs: self.outputs@,
            warmth: self.warmth@,
            warmth_percent: self.warmth_percent,
            brightness: self.brightness@,
            brightness_percent: self.brightness_percent,
            timeline_title: self.timeline_title@,
            timeline_legend: self.timeline_legend@,
            timeline_active: self.timeline_active,
            preset_names: texts(self.preset_names@),
            preset_selected: self.preset_selected,
            inputs: shown_views(self.inputs@),
            manual_usable: self.manual_usable,
            schedule_usable: self.schedule_usable,
            times_usable: self.times_usable,
            coordinates_usable: self.coordinates_usable,
            presets_usable: self.presets_usable,
            help: self.help@,
            notice: self.notice@,
            notice_error: self.notice_error,
        }
    }
}

/// The place in the list of presets that stays selected, if there is any preset.
pub open spec fn kept_place(selected: u32, count: nat) -> Option<u32> {
    if count == 0 {
        None
    } else if selected < count {
        Some(selected)
    } else {
        Some((count - 1) as u32)
    }
}

/// The help of a field, with its title in bold.
pub open spec fn help_markup(field: Field) -> Seq<char> {
    "<b>"@ + help_of(field).0 + ".</b> "@ + help_of(field).1
}

/// What the window shows, given the day that it is and the place that is selected in the list of
/// presets.
pub open spec fn contents_of(gui: GuiView, view: Option<TimelineView>, selected: u32) -> ContentsView {
    let settings = gui.state.settings;
    let scheduled = schedule_runs(settings);
    ContentsView {
        daemon: "Daemon · "@ + backend_text(gui.transient, gui.backend_available),
        outputs: "Outputs · "@ + outputs_text(gui.state.outputs),
        warmth: warmth_text(gui.state.active_warmth),
        warmth_percent: gui.state.active_warmth,
        brightness: percent_text(gui.state.active_brightness),
        brightness_percent: gui.state.active_brightness,
        timeline_title: timeline_texts(view, scheduled).0,
        timeline_legend: timeline_texts(view, scheduled).1,
        timeline_active: scheduled,
        preset_names: if settings.presets.len() == 0 {
            seq!["(none)"@]
        } else {
            names_of(settings.presets)
        },
        preset_selected: kept_place(selected, settings.presets.len()),
        inputs: Seq::new(15, |i: int| value_of(settings, FIELDS@[i])),
        manual_usable: settings.enabled && !settings.automatic,
        schedule_usable: scheduled,
        times_usable: scheduled && settings.schedule.timing == ScheduleTiming::Fixed,
        coordinates_usable: scheduled && settings.schedule.timing == ScheduleTiming::Location,
        presets_usable: settings.presets.len() > 0,
        help: help_markup(gui.selected),
        notice: shown_notice(gui).0,
        notice_error: shown_notice(gui).1,
    }
}

/// The help of a field, with its title in bold.
pub fn update_help(field: Field) -> (markup: String)
    ensures
        markup@ == help_markup(field),
{
    let (title, help): (&str, &str) = field_help(field);
    let mut markup: String = "<b>".to_owned();
    markup.append(title);
    markup.append(".</b> ");
    markup.append(help);
    markup
}

/// What the window shows, given the day that it is and the place that is selected in the list of
/// presets.
pub fn refresh_ui(gui: &GuiState, view: &Option<TimelineView>, selected: u32) -> (contents: Contents)
    ensures
        contents@ == contents_of(gui@, *view, selected),
{
    let settings: &Settings = &gui.state.settings;
    let scheduled: bool = settings.enabled && settings.automatic;
    let fixed: bool = match settings.schedule.timing {
        ScheduleTiming::Fixed => true,
        ScheduleTiming::Location => false,
    };
    let mut daemon: String = "Daemon · ".to_owned();
    daemon.append(backend_status(gui.transient, gui.backend_available));
    let mut outputs: String = "Outputs · ".to_owned();
    outputs.append(outputs_line(&gui.state.outputs).as_str());
    let (timeline_title, timeline_legend): (String, String) = format_timeline(view, scheduled);
    let count: usize = settings.presets.len();
    let preset_names: Vec<String> = if count == 0 {
        vec!["(none)".to_owned()]
    } else {
        settings.presets.names()
    };
    proof {
        if count == 0 {
            assert(texts(preset_names@) =~= seq!["(none)"@]);
        }
    }
    let preset_selected: Option<u32> = if count == 0 {
        None
    } else if (selected as usize) < count {
        Some(selected)
    } else {
        Some((count - 1) as u32)
    };
    let (notice, notice_error): (String, bool) = gui.notice_text();
    let fields: [Field; 15] = FIELDS;
    let mut inputs: Vec<Shown> = Vec::new();
    for i in 0..15usize
        invariant
            fields@ == FIELDS@,
            inputs.len() == i,
            forall|j: int|
                0 <= j < i ==> (#[trigger] inputs@[j])@ == value_of(settings@, FIELDS@[j]),
    {
        inputs.push(shown_value(settings, fields[i]));
    }
    proof {
        assert(shown_views(inputs@) =~= Seq::new(15, |i: int| value_of(settings@, FIELDS@[i])));
    }
    Contents {
        daemon,
        outputs,
        warmth: format_warmth(gui.state.active_warmth),
        warmth_percent: gui.state.active_warmth,
        brightness: format_percent(gui.state.active_brightness),
        brightness_percent: gui.state.active_brightness,
        timeline_title,
        timeline_legend,
        timeline_active: scheduled,
        preset_names,
        preset_selected,
        inputs,
        manual_usable: settings.enabled && !settings.automatic,
        schedule_usable: scheduled,
        times_usable: scheduled && fixed,
        coordinates_usable: scheduled && !fixed,
        presets_usable: count > 0,
        help: update_help(gui.selected),
        notice,
        notice_error,
    }
}

/// The contents of the window at a time of day, with the timeline to paint.
pub fn refresh_from(gui: &GuiState, selected: u32, now: LocalTime, sky: Sky) -> (shown: (
    Contents,
    Option<TimelineView>,
))
    requires
        now.valid(),
        sky.valid(),
    ensures
        shown.0@ == contents_of(gui@, shown.1, selected),
        is_day(shown.1, gui@.state.settings, now, sky),
{
    let view: Option<TimelineView> = match TimelineView::from_schedule(
        &gui.state.settings.schedule,
        now,
        sky,
    ) {
        Ok(view) => Some(view),
        Err(_) => None,
    };
    let contents: Contents = refresh_ui(gui, &view, selected);
    (contents, view)
}

/// The bit pattern of the limit of an angle, which is that of latitudes or of longitudes.
pub open spec fn angle_bits(limit: u16) -> u64 {
    if limit == 90 {
        POLE
    } else {
        ANTIMERIDIAN
    }
}

/// Whether a control can be set to a value.
pub open spec fn admits(control: Control, value: ShownView) -> bool {
    match (control, value) {
        (Control::Switch, ShownView::Switch(_)) => true,
        (Control::Timing, ShownView::Choice(place)) => place < 2,
        (Control::Percent { minimum, maximum }, ShownView::Percent(n)) => minimum <= n <= maximum,
        (Control::Time { length }, ShownView::Time(time)) => time.len() <= length,
        (Control::Degrees { limit }, ShownView::Degrees(degrees)) => degrees.within_spec(
            angle_bits(limit),
        ),
        (Control::Minutes { minimum, maximum }, ShownView::Minutes(n)) => minimum <= n <= maximum,
        _ => false,
    }
}

/// Every control but the presets asks for a change when it is set to a value that it admits, and
/// then shows that value. The other controls show what they showed, except that a level by hand
/// turns the filter on and the automatic mode off.
pub proof fn controls_show_what_they_are_set_to(
    settings: SettingsView,
    field: Field,
    value: ShownView,
    other: Field,
)
    requires
        admits(row_of(field).control, value),
    ensures
        edit_of(field, value) matches Some(edit) && edited_field(edit) == Some(field) && value_of(
            edited(settings, edit),
            field,
        ) == value && (other != field && !(row_of(field).section == Section::Manual && (other
            == Field::Mode || other == Field::Filter)) ==> value_of(edited(settings, edit), other)
            == value_of(settings, other)),
        row_of(field).section == Section::Manual ==> value_of(
            edited(settings, edit_of(field, value)->0),
            Field::Filter,
        ) == ShownView::Switch(true) && value_of(
            edited(settings, edit_of(field, value)->0),
            Field::Mode,
        ) == ShownView::Switch(false),
{
}

/// What a control admits is legal: levels stay valid, the fade stays within its limit, and angles
/// lie on the globe. Every time of day can be typed in.
pub proof fn controls_admit_legal_values(settings: SettingsView, field: Field, value: ShownView)
    requires
        admits(row_of(field).control, value),
        levels_fault(settings.manual) is None,
        levels_fault(settings.schedule.day) is None,
        levels_fault(settings.schedule.night) is None,
    ensures
        ({
            let after = edited(settings, edit_of(field, value)->0);
            &&& levels_fault(after.manual) is None
            &&& levels_fault(after.schedule.day) is None
            &&& levels_fault(after.schedule.night) is None
            &&& field == Field::Transition ==> after.schedule.transition_minutes
                <= MAX_TRANSITION_MINUTES
            &&& field == Field::Latitude ==> after.schedule.latitude.within_spec(POLE)
            &&& field == Field::Longitude ==> after.schedule.longitude.within_spec(ANTIMERIDIAN)
        }),
        forall|time: Seq<char>|
            #![trigger time_of(time)]
            time_of(time) is Ok ==> admits(
                row_of(Field::NightStart).control,
                ShownView::Time(time),
            ) && admits(row_of(Field::DayStart).control, ShownView::Time(time)),
{
    assert forall|time: Seq<char>| #![trigger time_of(time)] time_of(time) is Ok implies time.len()
        <= 5 by {
        lemma_colon(time, 0);
    }
}

/// A name that is accepted when it is typed in is a proper name for a preset: the preset is saved if
/// the settings are valid.
pub proof fn typed_names_are_proper(settings: SettingsView, name: Seq<char>)
    requires
        typed_name_fault(name) is None,
    ensures
        new_preset_fault(settings, name) == crate::config::preset_fault(preset_of(settings)),
{
    assert forall|i: int| 0 <= i < name.len() implies allowed_in_name(#[trigger] name[i]) by {}
    assert(allowed_in_name(name[0]));
    assert(!crate::text::is_space(name[0]));
    assert forall|i: int| 0 <= i < name.len() implies !crate::text::is_control(
        #[trigger] name[i],
    ) by {
        assert(allowed_in_name(name[i]));
    }
}

// ── what controls are for ────────────────────────────────────────────────────

/// The control of a field shows the setting that the field is called after.
pub proof fn controls_show_the_setting_of_their_field(settings: SettingsView)
    ensures
        value_of(settings, Field::Mode) == ShownView::Switch(settings.automatic),
        value_of(settings, Field::Filter) == ShownView::Switch(settings.enabled),
        value_of(settings, Field::ManualWarmth) == ShownView::Percent(settings.manual.warmth),
        value_of(settings, Field::ManualBrightness) == ShownView::Percent(
            settings.manual.brightness,
        ),
        value_of(settings, Field::Timing) == ShownView::Choice(
            if settings.schedule.timing == ScheduleTiming::Location {
                1
            } else {
                0
            },
        ),
        value_of(settings, Field::DayWarmth) == ShownView::Percent(settings.schedule.day.warmth),
        value_of(settings, Field::DayBrightness) == ShownView::Percent(
            settings.schedule.day.brightness,
        ),
        value_of(settings, Field::NightWarmth) == ShownView::Percent(
            settings.schedule.night.warmth,
        ),
        value_of(settings, Field::NightBrightness) == ShownView::Percent(
            settings.schedule.night.brightness,
        ),
        value_of(settings, Field::NightStart) == ShownView::Time(settings.schedule.night_start),
        value_of(settings, Field::DayStart) == ShownView::Time(settings.schedule.day_start),
        value_of(settings, Field::Latitude) == ShownView::Degrees(settings.schedule.latitude),
        value_of(settings, Field::Longitude) == ShownView::Degrees(settings.schedule.longitude),
        value_of(settings, Field::Transition) == ShownView::Minutes(
            settings.schedule.transition_minutes,
        ),
{
}

/// What comes of settings when the control of a field is set to a value.
pub open spec fn after_input(settings: SettingsView, field: Field, value: ShownView) -> SettingsView {
    match edit_of(field, value) {
        Some(edit) => edited(settings, edit),
        None => settings,
    }
}

/// A control that is set changes the setting that its field is called after, and nothing else. A
/// brightness is raised to the least one, and a transition cut to the longest. A level by hand also
/// turns the filter on and the mode to manual.
pub proof fn controls_change_the_setting_of_their_field(
    settings: SettingsView,
    on: bool,
    place: u32,
    n: u8,
    time: Seq<char>,
    angle: Coordinate,
    minutes: u16,
)
    ensures
        ({
            let schedule = settings.schedule;
            let lit = if n < 10 {
                10
            } else {
                n
            };
            &&& after_input(settings, Field::Mode, ShownView::Switch(on)) == (SettingsView {
                automatic: on,
                ..settings
            })
            &&& after_input(settings, Field::Filter, ShownView::Switch(on)) == (SettingsView {
                enabled: on,
                ..settings
            })
            &&& after_input(settings, Field::ManualWarmth, ShownView::Percent(n)) == (SettingsView {
                enabled: true,
                automatic: false,
                manual: Levels { warmth: n, brightness: settings.manual.brightness },
                ..settings
            })
            &&& after_input(settings, Field::ManualBrightness, ShownView::Percent(n)) == (
            SettingsView {
                enabled: true,
                automatic: false,
                manual: Levels { warmth: settings.manual.warmth, brightness: lit },
                ..settings
            })
            &&& after_input(settings, Field::Timing, ShownView::Choice(place)) == (SettingsView {
                schedule: ScheduleView {
                    timing: if place == 1 {
                        ScheduleTiming::Location
                    } else {
                        ScheduleTiming::Fixed
                    },
                    ..schedule
                },
                ..settings
            })
            &&& after_input(settings, Field::DayWarmth, ShownView::Percent(n)) == (SettingsView {
                schedule: ScheduleView {
                    day: Levels { warmth: n, brightness: schedule.day.brightness },
                    ..schedule
                },
                ..settings
            })
            &&& after_input(settings, Field::DayBrightness, ShownView::Percent(n)) == (SettingsView {
                schedule: ScheduleView {
                    day: Levels { warmth: schedule.day.warmth, brightness: lit },
                    ..schedule
                },
                ..settings
            })
            &&& after_input(settings, Field::NightWarmth, ShownView::Percent(n)) == (SettingsView {
                schedule: ScheduleView {
                    night: Levels { warmth: n, brightness: schedule.night.brightness },
                    ..schedule
                },
                ..settings
            })
            &&& after_input(settings, Field::NightBrightness, ShownView::Percent(n)) == (
            SettingsView {
                schedule: ScheduleView {
                    night: Levels { warmth: schedule.night.warmth, brightness: lit },
                    ..schedule
                },
                ..settings
            })
            &&& after_input(settings, Field::NightStart, ShownView::Time(time)) == (SettingsView {
                schedule: ScheduleView { night_start: time, ..schedule },
                ..settings
            })
            &&& after_input(settings, Field::DayStart, ShownView::Time(time)) == (SettingsView {
                schedule: ScheduleView { day_start: time, ..schedule },
                ..settings
            })
            &&& after_input(settings, Field::Latitude, ShownView::Degrees(angle)) == (SettingsView {
                schedule: ScheduleView { latitude: angle, ..schedule },
                ..settings
            })
            &&& after_input(settings, Field::Longitude, ShownView::Degrees(angle)) == (SettingsView {
                schedule: ScheduleView { longitude: angle, ..schedule },
                ..settings
            })
            &&& after_input(settings, Field::Transition, ShownView::Minutes(minutes)) == (
            SettingsView {
                schedule: ScheduleView {
                    transition_minutes: if minutes > 240 {
                        240
                    } else {
                        minutes
                    },
                    ..schedule
                },
                ..settings
            })
        }),
{
}

/// The buttons for presets do what they are called: a preset that is applied gives the settings its
/// mode, its levels by hand and its schedule; one that is saved is found with those of the settings;
/// one that is deleted is not found any more. Each leaves everything else alone.
pub proof fn buttons_do_what_they_are_called(settings: SettingsView, name: Seq<char>)
    requires
        ascending(settings.presets),
    ensures
        ({
            let presets = settings.presets;
            let applied = edited(settings, EditView::ApplyPreset(name));
            let saved = edited(settings, EditView::SavePreset(name));
            let deleted = edited(settings, EditView::DeletePreset(name));
            &&& forall|i: int|
                #![trigger presets[i]]
                0 <= i < presets.len() && presets[i].name == name ==> applied == (SettingsView {
                    automatic: presets[i].preset.automatic,
                    manual: presets[i].preset.manual,
                    schedule: presets[i].preset.schedule,
                    ..settings
                })
            &&& (forall|i: int| 0 <= i < presets.len() ==> (#[trigger] presets[i]).name != name)
                ==> applied == settings
            &&& saved == (SettingsView { presets: saved.presets, ..settings })
            &&& new_preset_fault(settings, name) is None ==> (lookup(
                saved.presets,
                name,
            ) matches Some(preset) && preset.automatic == settings.automatic && preset.manual
                == settings.manual && preset.schedule == settings.schedule)
            &&& new_preset_fault(settings, name) is Some ==> saved == settings
            &&& deleted == (SettingsView { presets: deleted.presets, ..settings })
            &&& lookup(deleted.presets, name) is None
            &&& forall|other: Seq<char>|
                other != name ==> #[trigger] lookup(saved.presets, other) == lookup(presets, other)
                    && lookup(deleted.presets, other) == lookup(presets, other)
        }),
{
    presets_are_found_by_name(settings.presets, name);
    adding_is_lookup_update(
        settings.presets,
        EntryView { name, preset: preset_of(settings) },
    );
    removing_is_lookup_update(settings.presets, name);
}

/// The window shows the levels in force, what is selected and what can be used: levels by hand with
/// the filter on in manual mode, the schedule with the filter on in automatic mode, clock times and
/// coordinates by the timing, and the presets if there are any.
pub proof fn the_window_shows_what_can_be_used(
    gui: GuiView,
    view: Option<TimelineView>,
    selected: u32,
    field: Field,
)
    requires
        gui.state.settings.presets.len() <= u32::MAX,
    ensures
        ({
            let contents = contents_of(gui, view, selected);
            let settings = gui.state.settings;
            let count = settings.presets.len();
            let runs = settings.enabled && settings.automatic;
            &&& contents.warmth_percent == gui.state.active_warmth
            &&& contents.brightness_percent == gui.state.active_brightness
            &&& contents.brightness == decimal_text(gui.state.active_brightness as int) + "%"@
            &&& contents.inputs.len() == 15
            &&& contents.inputs[field_index(field)] == value_of(settings, field)
            &&& contents.manual_usable == (settings.enabled && !settings.automatic)
            &&& contents.schedule_usable == runs
            &&& contents.timeline_active == runs
            &&& contents.times_usable == (runs && settings.schedule.timing == ScheduleTiming::Fixed)
            &&& contents.coordinates_usable == (runs && settings.schedule.timing
                == ScheduleTiming::Location)
            &&& contents.presets_usable == (count > 0)
            &&& count == 0 ==> contents.preset_selected is None
            &&& count > 0 ==> contents.preset_selected == Some(
                if selected < count {
                    selected
                } else {
                    (count - 1) as u32
                },
            )
            &&& count > 0 ==> contents.preset_names.len() == count && forall|i: int|
                0 <= i < count ==> #[trigger] contents.preset_names[i] == settings.presets[i].name
            &&& gui.notice matches Some(notice) ==> contents.notice == notice.text
                && contents.notice_error == notice.error
            &&& gui.notice is None ==> !contents.notice_error
        }),
{
    assert(FIELDS@[field_index(field)] == field);
}

/// News goes away by itself, after two seconds where settings were saved and after three otherwise;
/// failures stay. A message goes when its time is over, and not before.
pub proof fn news_passes_and_failures_stay(text: Seq<char>, now: u64, later: u64)
    requires
        now + 3000 <= u64::MAX,
    ensures
        unexpired(Some(saved_notice(now)), later) is None <==> later >= now + 2000,
        unexpired(Some(info_notice(text, now)), later) is None <==> later >= now + 3000,
        unexpired(Some(error_notice(text)), later) == Some(error_notice(text)),
        unexpired(None, later) is None,
        later < now + 2000 ==> unexpired(Some(saved_notice(now)), later) == Some(saved_notice(now)),
        later < now + 3000 ==> unexpired(Some(info_notice(text, now)), later) == Some(
            info_notice(text, now),
        ),
        info_notice(text, now).text == text && !info_notice(text, now).error,
        error_notice(text).text == text && error_notice(text).error,
        !saved_notice(now).error,
{
}

/// When the daemon answers again after it did not, that is said; while it answers, a conflict is
/// said as a failure, once, and otherwise the message stays.
pub proof fn reconnections_and_conflicts_are_said(
    notice: Option<NoticeView>,
    conflict: Seq<char>,
    now: u64,
)
    ensures
        state_news(notice, false, Some(conflict), now) == Some(
            info_notice("Display backend reconnected"@, now),
        ),
        state_news(notice, false, None, now) == Some(
            info_notice("Display backend reconnected"@, now),
        ),
        state_news(notice, true, None, now) == notice,
        state_news(notice, true, Some(conflict), now) matches Some(said) && said.text
            == "Conflict: "@ + conflict,
        notice is None ==> state_news(notice, true, Some(conflict), now) == Some(
            error_notice("Conflict: "@ + conflict),
        ),
        state_news(
            state_news(notice, true, Some(conflict), now),
            true,
            Some(conflict),
            now,
        ) == state_news(notice, true, Some(conflict), now),
{
}

/// A band of the timeline takes up the minutes of its segment, in the colour of its phase, and is
/// narrow exactly if the levels change in it.
pub proof fn bands_take_up_their_segments(segment: TimelineSegment, active: bool)
    ensures
        band_of(segment, active).start == segment.start,
        band_of(segment, active).end == segment.end,
        band_of(segment, active).narrow == (segment.phase == TimelinePhase::MorningFade
            || segment.phase == TimelinePhase::EveningFade),
        band_of(segment, active).colour == phase_rgb(segment.phase, active),
{
}

/// Each field stands in its section with a control that fits it: switches and choices for what has
/// few values, scales within the limits of warmth and of brightness, entries of five characters for
/// times, angles up to the poles and the antimeridian, and up to four hours of fading.
pub proof fn fields_have_fitting_controls()
    ensures
        row_of(Field::Mode).control == Control::Switch,
        row_of(Field::Filter).control == Control::Switch,
        row_of(Field::Preset).control == Control::Presets,
        row_of(Field::Timing).control == Control::Timing,
        row_of(Field::ManualWarmth).control == (Control::Percent { minimum: 0, maximum: 100 }),
        row_of(Field::DayWarmth).control == (Control::Percent { minimum: 0, maximum: 100 }),
        row_of(Field::NightWarmth).control == (Control::Percent { minimum: 0, maximum: 100 }),
        row_of(Field::ManualBrightness).control == (Control::Percent { minimum: 10, maximum: 100 }),
        row_of(Field::DayBrightness).control == (Control::Percent { minimum: 10, maximum: 100 }),
        row_of(Field::NightBrightness).control == (Control::Percent { minimum: 10, maximum: 100 }),
        row_of(Field::NightStart).control == (Control::Time { length: 5 }),
        row_of(Field::DayStart).control == (Control::Time { length: 5 }),
        row_of(Field::Latitude).control == (Control::Degrees { limit: 90 }),
        row_of(Field::Longitude).control == (Control::Degrees { limit: 180 }),
        row_of(Field::Transition).control == (Control::Minutes { minimum: 0, maximum: 240 }),
        row_of(Field::DayWarmth).title == "Day warmth"@,
        row_of(Field::DayBrightness).title == "Day brightness"@,
        row_of(Field::NightWarmth).title == "Night warmth"@,
        row_of(Field::NightBrightness).title == "Night brightness"@,
        row_of(Field::NightStart).title == "Night begins"@,
        row_of(Field::DayStart).title == "Day begins"@,
        row_of(Field::Latitude).title == "Latitude"@,
        row_of(Field::Longitude).title == "Longitude"@,
{
}

/// What is typed in for a time is refused exactly if it names no time, and only what is typed in for
/// a time is.
pub proof fn only_times_are_taken_for_times(field: Field, value: ShownView, text: Seq<char>)
    ensures
        refused_time(edit_of(Field::NightStart, ShownView::Time(text))) == (if time_of(text) is Ok {
            None
        } else {
            Some(text)
        }),
        refused_time(edit_of(Field::DayStart, ShownView::Time(text))) == (if time_of(text) is Ok {
            None
        } else {
            Some(text)
        }),
        field != Field::NightStart && field != Field::DayStart ==> refused_time(
            edit_of(field, value),
        ) is None,
{
}

/// A name that is typed in is taken exactly if it is not empty and made of characters that may stand
/// in one.
pub proof fn plain_names_are_taken(name: Seq<char>)
    ensures
        typed_name_fault(name) is None <==> name.len() > 0 && forall|i: int|
            0 <= i < name.len() ==> allowed_in_name(#[trigger] name[i]),
{
}

/// The title and the legend of the timeline tell when the day and the night start, how long the
/// change takes and what time it is; a schedule that is not in force or has no valid times is said
/// to be so.
pub proof fn timelines_are_told_in_words(view: TimelineView)
    ensures
        ({
            let day = clock_text(view.day_start as int % 1440);
            let night = clock_text(view.night_start as int % 1440);
            let now = clock_text(view.now_minute as int % 1440);
            &&& timeline_texts(Some(view), true).0 == "Today · day "@ + day + " · night "@ + night
            &&& timeline_texts(Some(view), true).1 == "Day begins "@ + day + "   Night begins "@
                + night + "   Fade "@ + decimal_text(view.transition_minutes as int)
                + " min   Now "@ + now
            &&& timeline_texts(Some(view), false).0 == "Today · inactive"@
            &&& timeline_texts(None, true).1 == "Schedule times are invalid"@
        }),
{
}

/// A change of a preset is announced with the name of the preset, and no other change is.
pub proof fn changes_of_presets_are_announced(name: Seq<char>, edit: EditView)
    ensures
        edit_news(EditView::ApplyPreset(name)) == Some("Applied preset "@ + quoted_text(name)),
        edit_news(EditView::SavePreset(name)) == Some("Preset "@ + quoted_text(name) + " saved"@),
        edit_news(EditView::DeletePreset(name)) == Some(
            "Preset "@ + quoted_text(name) + " deleted"@,
        ),
        edit !is ApplyPreset && edit !is SavePreset && edit !is DeletePreset ==> edit_news(
            edit,
        ) is None,
{
}

/// The window says of the backend and of the outputs what it knows, and helps with the field that is
/// selected.
pub proof fn the_window_says_what_it_knows(
    gui: GuiView,
    view: Option<TimelineView>,
    selected: u32,
)
    ensures
        ({
            let contents = contents_of(gui, view, selected);
            &&& contents.daemon == "Daemon · "@ + backend_text(
                gui.transient,
                gui.backend_available,
            )
            &&& contents.outputs == "Outputs · "@ + outputs_text(gui.state.outputs)
            &&& contents.help == "<b>"@ + help_of(gui.selected).0 + ".</b> "@ + help_of(
                gui.selected,
            ).1
            &&& contents.warmth == warmth_text(gui.state.active_warmth)
            &&& contents.timeline_title == timeline_texts(
                view,
                gui.state.settings.enabled && gui.state.settings.automatic,
            ).0
            &&& contents.timeline_legend == timeline_texts(
                view,
                gui.state.settings.enabled && gui.state.settings.automatic,
            ).1
        }),
{
}

/// A text that is refused as a time changes nothing but the message, which tells it.
pub proof fn refused_times_are_told(gui: GuiView, text: Seq<char>)
    ensures
        with_refused_time(gui, text) == (GuiView {
            notice: with_refused_time(gui, text).notice,
            ..gui
        }),
        with_refused_time(gui, text).notice matches Some(notice) && notice.error
            && notice.expires_at is None && notice.text == "Invalid time "@ + quoted_text(text)
            + "; use HH:MM"@,
{
}

}
