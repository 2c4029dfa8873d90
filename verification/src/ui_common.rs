//! What the settings interfaces share: the fields they show and the timeline of a day.

use vstd::prelude::*;

pub use crate::config::MINUTES_PER_DAY;
use crate::config::{clock_text, failure, Schedule, ScheduleView};
use crate::daemon::{check_running, BackendEnd};
use crate::error::{fault, fault_about, Error, ErrorKind, ErrorView};
use crate::schedule::{
    blended, levels_at, minutes_since, progress, resolve_times, resolved,
    schedule_follows_the_clock, LocalTime, ResolvedTimes, Sky,
};
use crate::text::pad_two;

verus! {

// ── fields ───────────────────────────────────────────────────────────────────

/// The settings that can be moved to and changed.
#[derive(Clone, Copy, Debug, PartialEq, Eq, Structural)]
pub enum Field {
    Mode,
    Filter,
    Preset,
    ManualWarmth,
    ManualBrightness,
    Timing,
    DayWarmth,
    DayBrightness,
    NightWarmth,
    NightBrightness,
    NightStart,
    DayStart,
    Latitude,
    Longitude,
    Transition,
}

/// The fields in the order in which they are shown.
pub const FIELDS: [Field; 15] = [
    Field::Mode,
    Field::Filter,
    Field::Preset,
    Field::ManualWarmth,
    Field::ManualBrightness,
    Field::Timing,
    Field::DayWarmth,
    Field::DayBrightness,
    Field::NightWarmth,
    Field::NightBrightness,
    Field::NightStart,
    Field::DayStart,
    Field::Latitude,
    Field::Longitude,
    Field::Transition,
];

/// Where a field stands among the fields.
pub open spec fn field_index(field: Field) -> int {
    match field {
        Field::Mode => 0,
        Field::Filter => 1,
        Field::Preset => 2,
        Field::ManualWarmth => 3,
        Field::ManualBrightness => 4,
        Field::Timing => 5,
        Field::DayWarmth => 6,
        Field::DayBrightness => 7,
        Field::NightWarmth => 8,
        Field::NightBrightness => 9,
        Field::NightStart => 10,
        Field::DayStart => 11,
        Field::Latitude => 12,
        Field::Longitude => 13,
        Field::Transition => 14,
    }
}

/// The row of a field in the list, with the headings, and with the blank lines of a roomy list.
pub open spec fn field_row(field: Field, spacious: bool) -> int {
    let index = field_index(field);
    if index < 3 {
        index + 1
    } else if index < 5 {
        if spacious {
            index + 3
        } else {
            index + 2
        }
    } else if spacious {
        index + 5
    } else {
        index + 3
    }
}

impl Field {
    /// Where the field stands among the fields.
    pub fn index(self) -> (index: usize)
        ensures
            index == field_index(self),
            index < 15,
            FIELDS@[index as int] == self,
    {
        match self {
        Field::Mode => 0,
        Field::Filter => 1,
        Field::Preset => 2,
        Field::ManualWarmth => 3,
        Field::ManualBrightness => 4,
        Field::Timing => 5,
        Field::DayWarmth => 6,
        Field::DayBrightness => 7,
        Field::NightWarmth => 8,
        Field::NightBrightness => 9,
        Field::NightStart => 10,
        Field::DayStart => 11,
        Field::Latitude => 12,
        Field::Longitude => 13,
        Field::Transition => 14,
        }
    }

    /// The field before this one; the last comes before the first.
    pub fn previous(self) -> (field: Self)
        ensures
            field == FIELDS@[(field_index(self) + 14) % 15],
    {
        let fields: [Field; 15] = FIELDS;
        fields[(self.index() + 14) % 15]
    }

    /// The field behind this one; the first comes behind the last.
    pub fn next(self) -> (field: Self)
        ensures
            field == FIELDS@[(field_index(self) + 1) % 15],
    {
        let fields: [Field; 15] = FIELDS;
        fields[(self.index() + 1) % 15]
    }

    /// The row of the field in the list, with the headings, and with the blank lines of a roomy
    /// list.
    pub fn row_index(self, spacious: bool) -> (row: usize)
        ensures
            row == field_row(self, spacious),
    {
        let index: usize = self.index();
        match self {
            Field::Mode | Field::Filter | Field::Preset => index + 1,
            Field::ManualWarmth | Field::ManualBrightness => if spacious {
                index + 3
            } else {
                index + 2
            },
            _ => if spacious {
                index + 5
            } else {
                index + 3
            },
        }
    }

    /// Whether the field is switched rather than adjusted.
    pub fn is_toggle(self) -> (r: bool)
        ensures
            r == (self == Field::Mode || self == Field::Filter || self == Field::Timing || self
                == Field::Preset),
    {
        matches!(self, Field::Mode | Field::Filter | Field::Timing | Field::Preset)
    }
}

/// Going to the next field and to the previous one undo each other.
pub proof fn next_and_previous_are_inverse(field: Field)
    ensures
        FIELDS@[(field_index(FIELDS@[(field_index(field) + 1) % 15]) + 14) % 15] == field,
        FIELDS@[(field_index(FIELDS@[(field_index(field) + 14) % 15]) + 1) % 15] == field,
        FIELDS@[field_index(field)] == field,
{
}

/// The rows of the fields come in the order of the fields, and no two fields share one.
pub proof fn rows_follow_the_fields(a: Field, b: Field, spacious: bool)
    ensures
        field_index(a) < field_index(b) <==> field_row(a, spacious) < field_row(b, spacious),
        a == b <==> field_row(a, spacious) == field_row(b, spacious),
{
}

/// The title and the help of a field.
pub open spec fn help_of(field: Field) -> (Seq<char>, Seq<char>) {
    match field {
        Field::Mode => (
            "Mode"@,
            "Automatic follows the schedule. Manual mode holds your chosen warmth and brightness."@,
        ),
        Field::Filter => (
            "Filter"@,
            "Enable or disable color filtering. Turning it off restores neutral display colors."@,
        ),
        Field::Preset => (
            "Preset"@,
            "Choose a preset, then apply, save, or delete. Names: letters, digits, - and _."@,
        ),
        Field::ManualWarmth => (
            "Manual warmth"@,
            "Adjust the immediate color temperature. Changing this switches from Automatic to Manual mode."@,
        ),
        Field::ManualBrightness => (
            "Manual brightness"@,
            "Adjust immediate display brightness. Changing this switches from Automatic to Manual mode."@,
        ),
        Field::Timing => (
            "Timing"@,
            "Fixed uses clock times. Location derives day and night starts from civil dawn and dusk."@,
        ),
        Field::DayWarmth => (
            "Day warmth"@,
            "Choose the warmth held during the day. Zero keeps a neutral white point."@,
        ),
        Field::DayBrightness => (
            "Day brightness"@,
            "Choose the brightness held during the day while automatic mode is active."@,
        ),
        Field::NightWarmth => (
            "Night warmth"@,
            "Choose the warmth reached after the evening fade. Higher percentages reduce more blue light."@,
        ),
        Field::NightBrightness => (
            "Night brightness"@,
            "Choose the brightness reached after the evening fade."@,
        ),
        Field::NightStart => (
            "Night begins"@,
            "Fixed timing start, or fallback when location twilight is unavailable."@,
        ),
        Field::DayStart => (
            "Day begins"@,
            "Fixed timing start, or fallback when location twilight is unavailable."@,
        ),
        Field::Latitude => (
            "Latitude"@,
            "Observer latitude in degrees for civil dawn and dusk (location timing)."@,
        ),
        Field::Longitude => (
            "Longitude"@,
            "Observer longitude in degrees for civil dawn and dusk (location timing)."@,
        ),
        Field::Transition => (
            "Fade duration"@,
            "Set how gradually Waywarm moves between day and night settings."@,
        ),
    }
}

/// The title and the help of a field.
pub fn field_help(selected: Field) -> (help: (&'static str, &'static str))
    ensures
        help.0@ == help_of(selected).0,
        help.1@ == help_of(selected).1,
{
    match selected {
        Field::Mode => (
            "Mode",
            "Automatic follows the schedule. Manual mode holds your chosen warmth and brightness.",
        ),
        Field::Filter => (
            "Filter",
            "Enable or disable color filtering. Turning it off restores neutral display colors.",
        ),
        Field::Preset => (
            "Preset",
            "Choose a preset, then apply, save, or delete. Names: letters, digits, - and _.",
        ),
        Field::ManualWarmth => (
            "Manual warmth",
            "Adjust the immediate color temperature. Changing this switches from Automatic to Manual mode.",
        ),
        Field::ManualBrightness => (
            "Manual brightness",
            "Adjust immediate display brightness. Changing this switches from Automatic to Manual mode.",
        ),
        Field::Timing => (
            "Timing",
            "Fixed uses clock times. Location derives day and night starts from civil dawn and dusk.",
        ),
        Field::DayWarmth => (
            "Day warmth",
            "Choose the warmth held during the day. Zero keeps a neutral white point.",
        ),
        Field::DayBrightness => (
            "Day brightness",
            "Choose the brightness held during the day while automatic mode is active.",
        ),
        Field::NightWarmth => (
            "Night warmth",
            "Choose the warmth reached after the evening fade. Higher percentages reduce more blue light.",
        ),
        Field::NightBrightness => (
            "Night brightness",
            "Choose the brightness reached after the evening fade.",
        ),
        Field::NightStart => (
            "Night begins",
            "Fixed timing start, or fallback when location twilight is unavailable.",
        ),
        Field::DayStart => (
            "Day begins",
            "Fixed timing start, or fallback when location twilight is unavailable.",
        ),
        Field::Latitude => (
            "Latitude",
            "Observer latitude in degrees for civil dawn and dusk (location timing).",
        ),
        Field::Longitude => (
            "Longitude",
            "Observer longitude in degrees for civil dawn and dusk (location timing).",
        ),
        Field::Transition => (
            "Fade duration",
            "Set how gradually Waywarm moves between day and night settings.",
        ),
    }
}

/// Whether a character may stand in the name of a preset that is typed in.
pub open spec fn allowed_in_name(c: char) -> bool {
    'a' <= c <= 'z' || 'A' <= c <= 'Z' || '0' <= c <= '9' || c == '-' || c == '_'
}

/// Whether a character may stand in the name of a preset that is typed in.
pub fn is_preset_name_char(c: char) -> (r: bool)
    ensures
        r == allowed_in_name(c),
{
    ('a' <= c && c <= 'z') || ('A' <= c && c <= 'Z') || ('0' <= c && c <= '9') || c == '-' || c
        == '_'
}

// ── the backend ──────────────────────────────────────────────────────────────

/// How a backend is shown.
pub open spec fn backend_text(transient: bool, available: bool) -> Seq<char> {
    if !available {
        "OFFLINE"@
    } else if transient {
        "TEMPORARY"@
    } else {
        "ONLINE"@
    }
}

/// How a backend is shown.
pub fn backend_status(transient: bool, available: bool) -> (text: &'static str)
    ensures
        text@ == backend_text(transient, available),
{
    if !available {
        "OFFLINE"
    } else if transient {
        "TEMPORARY"
    } else {
        "ONLINE"
    }
}

/// How often a temporary backend is asked for its state before it is given up.
pub const CONNECT_ATTEMPTS: u32 = 60;

/// Why a backend that was started is not to be used.
pub open spec fn backend_fault(end: BackendEnd) -> Option<ErrorView> {
    match end {
        BackendEnd::Running => None,
        BackendEnd::Finished => Some(fault(ErrorKind::BackendStopped)),
        BackendEnd::Failed(error) => Some(fault_about(ErrorKind::BackendFailed, error@)),
        BackendEnd::Panicked => Some(fault(ErrorKind::BackendPanicked)),
    }
}

/// Decides what follows when a temporary backend was asked for its state, for the given number of
/// times: whether it is connected, or has to be asked again. A backend that ended is of no use even
/// if somebody answered.
pub fn connect_or_start(attempts: u32, answered: bool, end: &BackendEnd) -> (connected: Result<
    bool,
    Error,
>)
    ensures
        failure(connected) == (if backend_fault(*end) is Some {
            backend_fault(*end)
        } else if !answered && attempts >= CONNECT_ATTEMPTS {
            Some(fault(ErrorKind::BackendNotReady))
        } else {
            None
        }),
        connected is Ok ==> connected->Ok_0 == answered,
{
    if let Err(error) = check_running(end) {
        return Err(error);
    }
    if !answered && attempts >= CONNECT_ATTEMPTS {
        return Err(Error::new(ErrorKind::BackendNotReady));
    }
    Ok(answered)
}

// ── the timeline ─────────────────────────────────────────────────────────────

/// A minute of the day as `HH:MM`; minutes beyond the day wrap round.
pub fn format_hhmm(minute: u16) -> (text: String)
    ensures
        text@ == clock_text(minute as int % 1440),
{
    let minute: u16 = minute % MINUTES_PER_DAY;
    let mut text: String = pad_two(minute / 60);
    text.push(':');
    text.append(pad_two(minute % 60).as_str());
    text
}

/// What a schedule does during a stretch of the day.
#[derive(Clone, Copy, Debug, PartialEq, Eq, Structural)]
pub enum TimelinePhase {
    Day,
    EveningFade,
    Night,
    MorningFade,
}

/// How a phase is drawn in a terminal.
pub open spec fn phase_glyph(phase: TimelinePhase) -> Seq<char> {
    match phase {
        TimelinePhase::Day | TimelinePhase::Night => "█"@,
        TimelinePhase::EveningFade | TimelinePhase::MorningFade => "▒"@,
    }
}

/// The colour of a phase in a window: red, green and blue, in hundredths.
pub open spec fn phase_rgb(phase: TimelinePhase, active: bool) -> (u8, u8, u8) {
    if !active {
        (45u8, 45u8, 45u8)
    } else {
        match phase {
            TimelinePhase::Day => (0u8, 75u8, 85u8),
            TimelinePhase::Night => (95u8, 85u8, 45u8),
            _ => (95u8, 80u8, 15u8),
        }
    }
}

impl TimelinePhase {
    /// How the phase is drawn in a terminal.
    pub fn glyph(self) -> (text: &'static str)
        ensures
            text@ == phase_glyph(self),
    {
        match self {
            TimelinePhase::Day | TimelinePhase::Night => "█",
            TimelinePhase::EveningFade | TimelinePhase::MorningFade => "▒",
        }
    }

    /// The colour of the phase in a window: red, green and blue, in hundredths.
    pub fn rgb(self, active: bool) -> (colour: (u8, u8, u8))
        ensures
            colour == phase_rgb(self, active),
    {
        if !active {
            return (45, 45, 45);
        }
        match self {
            TimelinePhase::Day => (0, 75, 85),
            TimelinePhase::Night => (95, 85, 45),
            TimelinePhase::EveningFade | TimelinePhase::MorningFade => (95, 80, 15),
        }
    }
}

/// A stretch of the day in one phase.
#[derive(Clone, Copy, Debug, PartialEq, Eq, Structural)]
pub struct TimelineSegment {
    pub phase: TimelinePhase,
    /// The first minute, below 1440.
    pub start: u16,
    /// The minute behind the last one, up to 1440, which is the end of the day.
    pub end: u16,
}

/// The phase of a schedule at a minute of the day.
pub open spec fn phase_of(day: int, night: int, duration: int, minute: int) -> TimelinePhase {
    if minutes_since(day, minute) < duration {
        TimelinePhase::MorningFade
    } else if minutes_since(day, minute) < minutes_since(day, night) {
        TimelinePhase::Day
    } else if minutes_since(night, minute) < duration {
        TimelinePhase::EveningFade
    } else {
        TimelinePhase::Night
    }
}

/// Whether segments follow one another from minute zero to minute `end`, in turn with different
/// phases, and hold the phases of a schedule.
pub open spec fn is_timeline(
    segments: Seq<TimelineSegment>,
    day: int,
    night: int,
    duration: int,
    end: int,
) -> bool {
    &&& segments.len() > 0
    &&& segments[0].start == 0
    &&& segments.last().end == end
    &&& forall|i: int| 0 <= i < segments.len() ==> (#[trigger] segments[i]).start < segments[i].end
    &&& forall|i: int, j: int|
        #![trigger segments[i], segments[j]]
        0 <= i && j == i + 1 && j < segments.len() ==> segments[i].end == segments[j].start
            && segments[i].phase != segments[j].phase
    &&& forall|i: int, minute: int|
        #![trigger segments[i], phase_of(day, night, duration, minute)]
        0 <= i < segments.len() && segments[i].start <= minute < segments[i].end ==> phase_of(
            day,
            night,
            duration,
            minute,
        ) == segments[i].phase
}

fn since(start: u16, minute: u16) -> (n: u16)
    requires
        start < 1440,
        minute < 1440,
    ensures
        n == minutes_since(start as int, minute as int),
{
    if minute >= start {
        minute - start
    } else {
        minute + 1440 - start
    }
}

fn schedule_phase(day: u16, night: u16, duration: u16, minute: u16) -> (phase: TimelinePhase)
    requires
        day < 1440,
        night < 1440,
        minute < 1440,
    ensures
        phase == phase_of(day as int, night as int, duration as int, minute as int),
{
    if since(day, minute) < duration {
        TimelinePhase::MorningFade
    } else if since(day, minute) < since(day, night) {
        TimelinePhase::Day
    } else if since(night, minute) < duration {
        TimelinePhase::EveningFade
    } else {
        TimelinePhase::Night
    }
}

/// The segments of a day, from midnight to midnight, in which a schedule is in one phase each.
pub fn build_timeline_segments(day_start: u16, night_start: u16, transition_minutes: u16) -> (segments: Vec<
    TimelineSegment,
>)
    requires
        day_start < MINUTES_PER_DAY,
        night_start < MINUTES_PER_DAY,
    ensures
        is_timeline(
            segments@,
            day_start as int,
            night_start as int,
            transition_minutes as int,
            1440,
        ),
{
    let ghost day = day_start as int;
    let ghost night = night_start as int;
    let ghost duration = transition_minutes as int;
    let mut segments: Vec<TimelineSegment> = Vec::new();
    let mut start: u16 = 0;
    let mut phase: TimelinePhase = schedule_phase(day_start, night_start, transition_minutes, 0);
    let mut minute: u16 = 1;
    while minute < MINUTES_PER_DAY
        invariant
            day == day_start,
            night == night_start,
            duration == transition_minutes,
            day_start < 1440,
            night_start < 1440,
            start < minute <= 1440,
            segments.len() == 0 ==> start == 0,
            segments.len() > 0 ==> is_timeline(segments@, day, night, duration, start as int)
                && segments@.last().phase != phase,
            forall|m: int|
                start <= m < minute ==> #[trigger] phase_of(day, night, duration, m) == phase,
        decreases 1440 - minute,
    {
        let next: TimelinePhase = schedule_phase(
            day_start,
            night_start,
            transition_minutes,
            minute,
        );
        if next != phase {
            let ghost before = segments@;
            segments.push(TimelineSegment { phase, start, end: minute });
            proof {
                assert(segments@.drop_last() =~= before);
                lemma_timeline_push(before, segments@, day, night, duration, start as int);
            }
            start = minute;
            phase = next;
        }
        minute = minute + 1;
    }
    let ghost before = segments@;
    segments.push(TimelineSegment { phase, start, end: MINUTES_PER_DAY });
    proof {
        assert(segments@.drop_last() =~= before);
        lemma_timeline_push(before, segments@, day, night, duration, start as int);
    }
    segments
}

proof fn lemma_timeline_push(
    before: Seq<TimelineSegment>,
    after: Seq<TimelineSegment>,
    day: int,
    night: int,
    duration: int,
    start: int,
)
    requires
        after.len() == before.len() + 1,
        after.drop_last() == before,
        after.last().start == start,
        start < after.last().end,
        before.len() == 0 ==> start == 0,
        before.len() > 0 ==> is_timeline(before, day, night, duration, start)
            && before.last().phase != after.last().phase,
        forall|m: int|
            start <= m < after.last().end ==> #[trigger] phase_of(day, night, duration, m)
                == after.last().phase,
    ensures
        is_timeline(after, day, night, duration, after.last().end as int),
{
    assert forall|i: int| 0 <= i < before.len() implies #[trigger] before[i] == after[i] by {
        assert(after.drop_last()[i] == after[i]);
    }
    assert forall|i: int| 0 <= i < after.len() implies (#[trigger] after[i]).start
        < after[i].end by {
        if i < before.len() {
            assert(before[i] == after[i]);
        }
    }
    assert forall|i: int, j: int|
        #![trigger after[i], after[j]]
        0 <= i && j == i + 1 && j < after.len() implies after[i].end == after[j].start
        && after[i].phase != after[j].phase by {
        assert(before[i] == after[i]);
        if j < before.len() {
            assert(before[j] == after[j]);
        }
    }
    assert forall|i: int, minute: int|
        #![trigger after[i], phase_of(day, night, duration, minute)]
        0 <= i < after.len() && after[i].start <= minute < after[i].end implies phase_of(
        day,
        night,
        duration,
        minute,
    ) == after[i].phase by {
        if i < before.len() {
            assert(before[i] == after[i]);
        }
    }
    if before.len() > 0 {
        assert(before[0] == after[0]);
    }
}

/// The phase of the first segment that holds a minute.
pub open spec fn segment_phase(segments: Seq<TimelineSegment>, minute: int) -> Option<TimelinePhase>
    decreases segments.len(),
{
    if segments.len() == 0 {
        None
    } else if segments[0].start <= minute < segments[0].end {
        Some(segments[0].phase)
    } else {
        segment_phase(segments.drop_first(), minute)
    }
}

/// The phase that a timeline shows at a minute.
pub open spec fn shown_phase(segments: Seq<TimelineSegment>, minute: int) -> TimelinePhase {
    match segment_phase(segments, minute) {
        Some(phase) => phase,
        None => if segments.len() == 0 {
            TimelinePhase::Day
        } else {
            segments.last().phase
        },
    }
}

/// A day of a schedule, and the time that it is.
#[derive(Debug, PartialEq, Eq)]
pub struct TimelineView {
    pub segments: Vec<TimelineSegment>,
    pub day_start: u16,
    pub night_start: u16,
    pub transition_minutes: u16,
    pub now_minute: u16,
}

impl Clone for TimelineView {
    fn clone(&self) -> (copy: Self)
        ensures
            copy.segments@ == self.segments@,
            copy.day_start == self.day_start,
            copy.night_start == self.night_start,
            copy.transition_minutes == self.transition_minutes,
            copy.now_minute == self.now_minute,
    {
        TimelineView {
            segments: self.segments.clone(),
            day_start: self.day_start,
            night_start: self.night_start,
            transition_minutes: self.transition_minutes,
            now_minute: self.now_minute,
        }
    }
}

impl TimelineView {
    /// Whether the timeline is that of the given times.
    pub open spec fn shows(self, times: ResolvedTimes) -> bool {
        &&& self.day_start == times.day_start
        &&& self.night_start == times.night_start
        &&& self.transition_minutes == times.transition_minutes
        &&& is_timeline(
            self.segments@,
            times.day_start as int,
            times.night_start as int,
            times.transition_minutes as int,
            1440,
        )
    }

    /// The timeline of a schedule at a time of day. The time is shown to the nearest minute.
    pub fn from_schedule(schedule: &Schedule, now: LocalTime, sky: Sky) -> (view: Result<
        Self,
        Error,
    >)
        requires
            now.valid(),
            sky.valid(),
        ensures
            match view {
                Ok(v) => resolved(schedule@, sky) matches Ok(times) && v.shows(times)
                    && v.now_minute == (now.whole_minutes() + if now.second >= 30 {
                    1int
                } else {
                    0
                }) % 1440,
                Err(error) => resolved(schedule@, sky) == Err::<ResolvedTimes, ErrorView>(error@),
            },
    {
        let times: ResolvedTimes = match resolve_times(schedule, sky) {
            Ok(times) => times,
            Err(error) => return Err(error),
        };
        let half: u16 = if now.second >= 30 {
            1
        } else {
            0
        };
        let now_minute: u16 = (now.hour as u16 * 60 + now.minute as u16 + half) % MINUTES_PER_DAY;
        let segments: Vec<TimelineSegment> = build_timeline_segments(
            times.day_start,
            times.night_start,
            times.transition_minutes,
        );
        Ok(
            TimelineView {
                segments,
                day_start: times.day_start,
                night_start: times.night_start,
                transition_minutes: times.transition_minutes,
                now_minute,
            },
        )
    }

    /// The phase that the timeline shows at a minute; minutes beyond the day wrap round.
    pub fn phase_at(&self, minute: u16) -> (phase: TimelinePhase)
        ensures
            phase == shown_phase(self.segments@, minute as int % 1440),
    {
        let wrapped: u16 = minute % MINUTES_PER_DAY;
        let ghost all = self.segments@;
        let mut i: usize = 0;
        proof {
            assert(all.skip(0) =~= all);
        }
        while i < self.segments.len()
            invariant
                all == self.segments@,
                wrapped == minute as int % 1440,
                i <= all.len(),
                segment_phase(all, wrapped as int) == segment_phase(
                    all.skip(i as int),
                    wrapped as int,
                ),
            decreases all.len() - i,
        {
            proof {
                assert(all.skip(i as int).drop_first() =~= all.skip(i + 1));
            }
            if self.segments[i].start <= wrapped && wrapped < self.segments[i].end {
                return self.segments[i].phase;
            }
            i = i + 1;
        }
        if self.segments.len() == 0 {
            TimelinePhase::Day
        } else {
            self.segments[self.segments.len() - 1].phase
        }
    }
}

// ── what holds of every timeline ─────────────────────────────────────────────

proof fn lemma_segment_phase(segments: Seq<TimelineSegment>, i: int, minute: int)
    requires
        0 <= i < segments.len(),
        segments[i].start <= minute < segments[i].end,
        forall|j: int|
            0 <= j < i ==> !((#[trigger] segments[j]).start <= minute < segments[j].end),
    ensures
        segment_phase(segments, minute) == Some(segments[i].phase),
    decreases i,
{
    if i > 0 {
        let rest = segments.drop_first();
        assert forall|j: int| 0 <= j < i - 1 implies !((#[trigger] rest[j]).start <= minute
            < rest[j].end) by {
            assert(rest[j] == segments[j + 1]);
        }
        assert(!(segments[0].start <= minute < segments[0].end));
        assert(rest[i - 1] == segments[i]);
        lemma_segment_phase(rest, i - 1, minute);
    }
}

/// The first segment that ends behind a minute.
proof fn lemma_covering_segment(
    segments: Seq<TimelineSegment>,
    day: int,
    night: int,
    duration: int,
    minute: int,
    from: int,
) -> (i: int)
    requires
        is_timeline(segments, day, night, duration, 1440),
        0 <= minute < 1440,
        0 <= from < segments.len(),
        segments[from].start <= minute,
        forall|j: int| 0 <= j < from ==> (#[trigger] segments[j]).end <= minute,
    ensures
        0 <= i < segments.len(),
        segments[i].start <= minute < segments[i].end,
        forall|j: int| 0 <= j < i ==> (#[trigger] segments[j]).end <= minute,
    decreases segments.len() - from,
{
    if minute < segments[from].end {
        from
    } else {
        if from + 1 == segments.len() {
            assert(segments[from] == segments.last());
        }
        assert(segments[from].end == segments[from + 1].start);
        lemma_covering_segment(segments, day, night, duration, minute, from + 1)
    }
}

/// A timeline shows, at every minute, the phase that its schedule is in.
pub proof fn timeline_shows_the_schedule(view: TimelineView, times: ResolvedTimes, minute: int)
    requires
        view.shows(times),
        0 <= minute < 1440,
    ensures
        shown_phase(view.segments@, minute) == phase_of(
            times.day_start as int,
            times.night_start as int,
            times.transition_minutes as int,
            minute,
        ),
{
    let segments = view.segments@;
    let day = times.day_start as int;
    let night = times.night_start as int;
    let duration = times.transition_minutes as int;
    let i = lemma_covering_segment(segments, day, night, duration, minute, 0);
    lemma_segment_phase(segments, i, minute);
    assert(phase_of(day, night, duration, minute) == segments[i].phase);
}

/// The phases of a timeline are those of the levels: outside the fades the levels are those of the
/// day or of the night, and in a fade they are on the way from the one to the other.
pub proof fn phases_match_levels(schedule: ScheduleView, times: ResolvedTimes, now: LocalTime)
    requires
        now.valid(),
        times.day_start < MINUTES_PER_DAY,
        times.night_start < MINUTES_PER_DAY,
    ensures
        ({
            let day = times.day_start as int;
            let night = times.night_start as int;
            let duration = times.transition_minutes as int;
            let unit = crate::binary64::unit();
            levels_at(schedule, times, now.minutes()) == match phase_of(
                day,
                night,
                duration,
                now.whole_minutes(),
            ) {
                TimelinePhase::Day => schedule.day,
                TimelinePhase::Night => schedule.night,
                TimelinePhase::MorningFade => blended(
                    schedule.night,
                    schedule.day,
                    progress(now.minutes(), day * unit, duration),
                ),
                TimelinePhase::EveningFade => blended(
                    schedule.day,
                    schedule.night,
                    progress(now.minutes(), night * unit, duration),
                ),
            }
        }),
{
    schedule_follows_the_clock(schedule, times, now);
}

/// A timeline tells when the levels change: for the minutes of the transition from the start of the
/// day on it shows the morning's fade, and from the start of the night on the evening's; in between
/// it shows the day before the night starts, and the night for the rest.
pub proof fn timelines_tell_when_levels_change(view: TimelineView, times: ResolvedTimes, minute: int)
    requires
        view.shows(times),
        0 <= minute < 1440,
    ensures
        ({
            let since_day = (minute - times.day_start) % 1440;
            let since_night = (minute - times.night_start) % 1440;
            let daytime = (times.night_start - times.day_start) % 1440;
            let fade = times.transition_minutes as int;
            shown_phase(view.segments@, minute) == (if since_day < fade {
                TimelinePhase::MorningFade
            } else if since_day < daytime {
                TimelinePhase::Day
            } else if since_night < fade {
                TimelinePhase::EveningFade
            } else {
                TimelinePhase::Night
            })
        }),
        view.day_start == times.day_start,
        view.night_start == times.night_start,
        view.transition_minutes == times.transition_minutes,
{
    timeline_shows_the_schedule(view, times, minute);
}

/// The segments of a timeline take up the whole day, one behind the other.
pub proof fn segments_take_up_the_day(view: TimelineView, times: ResolvedTimes)
    requires
        view.shows(times),
    ensures
        ({
            let segments = view.segments@;
            &&& segments.len() > 0
            &&& segments[0].start == 0
            &&& segments[segments.len() - 1].end == 1440
            &&& forall|i: int, j: int|
                #![trigger segments[i], segments[j]]
                0 <= i && j == i + 1 && j < segments.len() ==> segments[i].end == segments[j].start
        }),
{
}

/// A backend that does not answer is shown as offline, whichever it is; one that runs beside the
/// interface as temporary, and a service as online.
pub proof fn backends_are_told_apart(transient: bool)
    ensures
        backend_text(transient, false) == "OFFLINE"@,
        backend_text(true, true) == "TEMPORARY"@,
        backend_text(false, true) == "ONLINE"@,
{
}

/// A timeline that is not in force is grey; one that is has different colours for day, night and the
/// changes between them.
pub proof fn phases_are_told_apart_by_colour(a: TimelinePhase, b: TimelinePhase)
    ensures
        phase_rgb(a, false) == phase_rgb(b, false),
        phase_rgb(a, false).0 == phase_rgb(a, false).1 && phase_rgb(a, false).1 == phase_rgb(
            a,
            false,
        ).2,
        phase_rgb(TimelinePhase::Day, true) != phase_rgb(TimelinePhase::Night, true),
        phase_rgb(TimelinePhase::Day, true) != phase_rgb(TimelinePhase::MorningFade, true),
        phase_rgb(TimelinePhase::Night, true) != phase_rgb(TimelinePhase::EveningFade, true),
        phase_rgb(TimelinePhase::MorningFade, true) == phase_rgb(TimelinePhase::EveningFade, true),
        // The day is bluer than it is red, and the night redder than it is blue.
        phase_rgb(TimelinePhase::Day, true).2 > phase_rgb(TimelinePhase::Day, true).0,
        phase_rgb(TimelinePhase::Night, true).0 > phase_rgb(TimelinePhase::Night, true).2,
{
}

/// The help of a field stands under the name of the field.
pub proof fn help_stands_under_the_name_of_the_field()
    ensures
        help_of(Field::Mode).0 == "Mode"@,
        help_of(Field::Filter).0 == "Filter"@,
        help_of(Field::Preset).0 == "Preset"@,
        help_of(Field::ManualWarmth).0 == "Manual warmth"@,
        help_of(Field::ManualBrightness).0 == "Manual brightness"@,
        help_of(Field::Timing).0 == "Timing"@,
        help_of(Field::DayWarmth).0 == "Day warmth"@,
        help_of(Field::DayBrightness).0 == "Day brightness"@,
        help_of(Field::NightWarmth).0 == "Night warmth"@,
        help_of(Field::NightBrightness).0 == "Night brightness"@,
        help_of(Field::NightStart).0 == "Night begins"@,
        help_of(Field::DayStart).0 == "Day begins"@,
        help_of(Field::Latitude).0 == "Latitude"@,
        help_of(Field::Longitude).0 == "Longitude"@,
        help_of(Field::Transition).0 == "Fade duration"@,
{
}

/// A name that is typed in is made of letters and digits of the Latin alphabet, dashes and
/// underscores.
pub proof fn typed_names_are_plain(c: char)
    ensures
        allowed_in_name(c) ==> c == '-' || c == '_' || '0' <= c <= '9' || 'A' <= c <= 'Z' || 'a'
            <= c <= 'z',
        '0' <= c <= '9' || 'A' <= c <= 'Z' || 'a' <= c <= 'z' || c == '-' || c == '_'
            ==> allowed_in_name(c),
{
}

/// A backend that ended is of no use, each end with its reason; one that runs is.
pub proof fn ended_backends_are_of_no_use(end: BackendEnd)
    ensures
        backend_fault(end) is None <==> end is Running,
        end is Finished ==> backend_fault(end) == Some(fault(ErrorKind::BackendStopped)),
        end is Panicked ==> backend_fault(end) == Some(fault(ErrorKind::BackendPanicked)),
        end matches BackendEnd::Failed(error) ==> backend_fault(end) == Some(
            fault_about(ErrorKind::BackendFailed, error@),
        ),
{
}

/// A minute that no segment holds is of the phase of the last segment, and of the day if there are
/// no segments.
pub proof fn minutes_outside_follow_the_last_segment(segments: Seq<TimelineSegment>, minute: int)
    requires
        forall|i: int|
            0 <= i < segments.len() ==> !(#[trigger] segments[i].start <= minute
                < segments[i].end),
    ensures
        segments.len() == 0 ==> shown_phase(segments, minute) == TimelinePhase::Day,
        segments.len() > 0 ==> shown_phase(segments, minute) == segments.last().phase,
{
    lemma_held_by_none(segments, minute);
}

proof fn lemma_held_by_none(segments: Seq<TimelineSegment>, minute: int)
    requires
        forall|i: int|
            0 <= i < segments.len() ==> !(#[trigger] segments[i].start <= minute
                < segments[i].end),
    ensures
        segment_phase(segments, minute) is None,
    decreases segments.len(),
{
    if segments.len() > 0 {
        let rest = segments.drop_first();
        assert forall|i: int| 0 <= i < rest.len() implies !(#[trigger] rest[i].start <= minute
            < rest[i].end) by {
            assert(rest[i] == segments[i + 1]);
        }
        lemma_held_by_none(rest, minute);
    }
}

}
