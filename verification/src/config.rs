//! Settings, their validation, and named presets.

use vstd::prelude::*;

use crate::coordinate::{Coordinate, ANTIMERIDIAN, POLE};
use crate::error::{fault, fault_about, fault_in_preset, Error, ErrorKind, ErrorView};
use crate::text::{
    blank, characters, comes_before, contains_control, digit_char, has_control, is_blank,
    lemma_parsed_is_natural, lemma_precedes_irreflexive, lemma_precedes_total,
    lemma_precedes_transitive, parse_number, parsed_number, precedes, scanned, text_of, two_digits,
    NumberFault,
};

verus! {

pub const CONFIG_VERSION: u32 = 1;

pub const MIN_BRIGHTNESS: u8 = 10;

pub const MAX_TRANSITION_MINUTES: u16 = 240;

pub const MINUTES_PER_DAY: u16 = 1440;

/// The failure in a result, if it is one.
pub open spec fn failure<T>(result: Result<T, Error>) -> Option<ErrorView> {
    match result {
        Ok(_) => None,
        Err(error) => Some(error@),
    }
}

// ── times of day ─────────────────────────────────────────────────────────────

/// Where the first colon of a text stands, from a position on.
pub open spec fn colon_from(text: Seq<char>, from: int) -> Option<int>
    decreases text.len() - from,
{
    if from < 0 || from >= text.len() {
        None
    } else if text[from] == ':' {
        Some(from)
    } else {
        colon_from(text, from + 1)
    }
}

pub(crate) proof fn lemma_colon(text: Seq<char>, from: int)
    requires
        0 <= from,
    ensures
        colon_from(text, from) matches Some(i) ==> from <= i < text.len() && text[i] == ':',
    decreases text.len() - from,
{
    if from < text.len() && text[from] != ':' {
        lemma_colon(text, from + 1);
    }
}

/// The minute of the day that `HH:MM` names.
pub open spec fn time_of(text: Seq<char>) -> Result<int, ErrorView> {
    match colon_from(text, 0) {
        None => Err(fault_about(ErrorKind::Time, text)),
        Some(i) => {
            let hour_text = text.take(i);
            let minute_text = text.skip(i + 1);
            match (parsed_number(hour_text, 65535), parsed_number(minute_text, 65535)) {
                (Err(why), _) => Err(fault_about(ErrorKind::Hour(why), text)),
                (_, Err(why)) => Err(fault_about(ErrorKind::Minute(why), text)),
                (Ok(hour), Ok(minute)) => if hour > 23 || minute > 59 || hour_text.len() != 2
                    || minute_text.len() != 2 {
                    Err(fault_about(ErrorKind::Time, text))
                } else {
                    Ok(hour * 60 + minute)
                },
            }
        },
    }
}

/// Reads a time of day as minutes since midnight.
pub fn parse_time(value: &str) -> (minutes: Result<u16, Error>)
    ensures
        match minutes {
            Ok(m) => time_of(value@) == Ok::<int, ErrorView>(m as int) && m < MINUTES_PER_DAY,
            Err(error) => time_of(value@) == Err::<int, ErrorView>(error@),
        },
{
    let chars: Vec<char> = characters(value);
    let mut i: usize = 0;
    while i < chars.len() && chars[i] != ':'
        invariant
            chars@ == value@,
            i <= chars.len(),
            colon_from(value@, 0) == colon_from(value@, i as int),
        decreases chars.len() - i,
    {
        i = i + 1;
    }
    if i == chars.len() {
        return Err(Error::about(ErrorKind::Time, value));
    }
    let hour_chars: &[char] = vstd::slice::slice_subrange(chars.as_slice(), 0, i);
    let minute_chars: &[char] = vstd::slice::slice_subrange(chars.as_slice(), i + 1, chars.len());
    proof {
        assert(hour_chars@ =~= value@.take(i as int));
        assert(minute_chars@ =~= value@.skip(i + 1));
    }
    let hour_text: String = text_of(hour_chars);
    let minute_text: String = text_of(minute_chars);
    let hour: u32 = match parse_number(hour_text.as_str(), 65535) {
        Ok(n) => n,
        Err(why) => return Err(Error::about(ErrorKind::Hour(why), value)),
    };
    let minute: u32 = match parse_number(minute_text.as_str(), 65535) {
        Ok(n) => n,
        Err(why) => return Err(Error::about(ErrorKind::Minute(why), value)),
    };
    if hour > 23 || minute > 59 || hour_chars.len() != 2 || minute_chars.len() != 2 {
        return Err(Error::about(ErrorKind::Time, value));
    }
    Ok((hour * 60 + minute) as u16)
}

/// A minute of the day as `HH:MM`.
pub open spec fn clock_text(minutes: int) -> Seq<char> {
    two_digits(minutes / 60).push(':') + two_digits(minutes % 60)
}

proof fn lemma_two_digits_parse(n: int)
    requires
        0 <= n < 100,
    ensures
        parsed_number(two_digits(n), 65535) == Ok::<int, NumberFault>(n),
{
    let text = two_digits(n);
    let rest = text.drop_first();
    assert(rest =~= seq![digit_char(n % 10)]);
    assert(rest.drop_first() =~= Seq::<char>::empty());
    assert(scanned(rest.drop_first(), n, 65535) == Ok::<int, NumberFault>(n));
    assert(scanned(rest, n / 10, 65535) == Ok::<int, NumberFault>(n));
}

/// A minute of the day that is written as `HH:MM` is read back.
pub proof fn clock_text_reads_back(minutes: int)
    requires
        0 <= minutes < MINUTES_PER_DAY,
    ensures
        time_of(clock_text(minutes)) == Ok::<int, ErrorView>(minutes),
{
    let text = clock_text(minutes);
    reveal_with_fuel(colon_from, 4);
    assert(text[2] == ':');
    assert(text.take(2) =~= two_digits(minutes / 60));
    assert(text.skip(3) =~= two_digits(minutes % 60));
    lemma_two_digits_parse(minutes / 60);
    lemma_two_digits_parse(minutes % 60);
}

/// A time that is read lies within the day.
pub proof fn times_lie_within_the_day(text: Seq<char>)
    ensures
        time_of(text) matches Ok(minutes) ==> 0 <= minutes < MINUTES_PER_DAY,
{
    if let Some(i) = colon_from(text, 0) {
        lemma_parsed_is_natural(text.take(i), 65535);
        lemma_parsed_is_natural(text.skip(i + 1), 65535);
    }
}

// ── levels ───────────────────────────────────────────────────────────────────

/// Warmth and brightness, in percent.
#[derive(Clone, Copy, Debug, PartialEq, Eq, Structural)]
pub struct Levels {
    pub warmth: u8,
    pub brightness: u8,
}

/// Levels that leave the display as it is.
pub open spec fn neutral_levels() -> Levels {
    Levels { warmth: 0, brightness: 100 }
}

/// What is wrong with a pair of levels.
pub open spec fn levels_fault(levels: Levels) -> Option<ErrorView> {
    if levels.warmth > 100 {
        Some(fault(ErrorKind::WarmthRange))
    } else if !(MIN_BRIGHTNESS <= levels.brightness <= 100) {
        Some(fault(ErrorKind::BrightnessRange))
    } else {
        None
    }
}

impl Levels {
    /// Levels that leave the display as it is.
    pub fn neutral() -> (levels: Levels)
        ensures
            levels == neutral_levels(),
    {
        Levels { warmth: 0, brightness: 100 }
    }

    /// Checks that the levels are in range.
    pub fn validate(self) -> (r: Result<(), Error>)
        ensures
            failure(r) == levels_fault(self),
    {
        if self.warmth > 100 {
            return Err(Error::new(ErrorKind::WarmthRange));
        }
        if self.brightness < MIN_BRIGHTNESS || self.brightness > 100 {
            return Err(Error::new(ErrorKind::BrightnessRange));
        }
        Ok(())
    }
}

impl Default for Levels {
    fn default() -> (levels: Self)
        ensures
            levels == neutral_levels(),
    {
        Levels::neutral()
    }
}

// ── schedules ────────────────────────────────────────────────────────────────

/// How automatic day and night transition times are chosen.
#[derive(Clone, Copy, Debug, PartialEq, Eq, Structural)]
pub enum ScheduleTiming {
    /// Use the fixed `day_start` and `night_start` clock times.
    Fixed,
    /// Derive the times from civil dawn and dusk at `latitude` and `longitude`.
    Location,
}

impl Default for ScheduleTiming {
    fn default() -> (timing: Self)
        ensures
            timing == ScheduleTiming::Fixed,
    {
        ScheduleTiming::Fixed
    }
}

/// What automatic mode follows through the day.
#[derive(Debug, PartialEq)]
pub struct Schedule {
    pub night_start: String,
    pub day_start: String,
    pub transition_minutes: u16,
    /// Daytime target while automatic mode is active.
    pub day: Levels,
    pub night: Levels,
    /// Fixed clock times, or civil twilight from coordinates.
    pub timing: ScheduleTiming,
    /// Degrees north; used when `timing` is [`ScheduleTiming::Location`].
    pub latitude: Coordinate,
    /// Degrees east; used when `timing` is [`ScheduleTiming::Location`].
    pub longitude: Coordinate,
}

/// A schedule with its texts as sequences of characters.
pub struct ScheduleView {
    pub night_start: Seq<char>,
    pub day_start: Seq<char>,
    pub transition_minutes: u16,
    pub day: Levels,
    pub night: Levels,
    pub timing: ScheduleTiming,
    pub latitude: Coordinate,
    pub longitude: Coordinate,
}

impl View for Schedule {
    type V = ScheduleView;

    open spec fn view(&self) -> ScheduleView {
        ScheduleView {
            night_start: self.night_start@,
            day_start: self.day_start@,
            transition_minutes: self.transition_minutes,
            day: self.day,
            night: self.night,
            timing: self.timing,
            latitude: self.latitude,
            longitude: self.longitude,
        }
    }
}

/// The schedule that new settings have: nights from nine to seven at half warmth.
pub open spec fn default_schedule() -> ScheduleView {
    ScheduleView {
        night_start: "21:00"@,
        day_start: "07:00"@,
        transition_minutes: 30,
        day: neutral_levels(),
        night: Levels { warmth: 50, brightness: 90 },
        timing: ScheduleTiming::Fixed,
        latitude: Coordinate { bits: 0 },
        longitude: Coordinate { bits: 0 },
    }
}

/// The distance between two minutes of the day, the shorter way round the clock.
pub open spec fn shortest_gap(a: int, b: int) -> int {
    let gap = if a < b {
        b - a
    } else {
        a - b
    };
    if gap < MINUTES_PER_DAY - gap {
        gap
    } else {
        MINUTES_PER_DAY - gap
    }
}

/// What is wrong with the clock times of a schedule.
pub open spec fn fixed_times_fault(schedule: ScheduleView) -> Option<ErrorView> {
    match (time_of(schedule.night_start), time_of(schedule.day_start)) {
        (Err(error), _) => Some(error),
        (_, Err(error)) => Some(error),
        (Ok(night), Ok(day)) => if night == day {
            Some(fault(ErrorKind::SameStart))
        } else if schedule.transition_minutes > shortest_gap(night, day) {
            Some(fault(ErrorKind::TransitionTooLong))
        } else {
            None
        },
    }
}

/// What is wrong with a schedule. The clock times have to be right under either timing, since
/// they stand in where the sun does not rise or set.
pub open spec fn schedule_fault(schedule: ScheduleView) -> Option<ErrorView> {
    if schedule.transition_minutes > MAX_TRANSITION_MINUTES {
        Some(fault(ErrorKind::TransitionRange))
    } else if levels_fault(schedule.day) is Some {
        levels_fault(schedule.day)
    } else if levels_fault(schedule.night) is Some {
        levels_fault(schedule.night)
    } else if schedule.timing == ScheduleTiming::Location && !schedule.latitude.within_spec(POLE) {
        Some(fault(ErrorKind::LatitudeRange))
    } else if schedule.timing == ScheduleTiming::Location && !schedule.longitude.within_spec(
        ANTIMERIDIAN,
    ) {
        Some(fault(ErrorKind::LongitudeRange))
    } else {
        fixed_times_fault(schedule)
    }
}

/// The shorter way round the clock between two minutes of the day.
pub fn gap_between(a: u16, b: u16) -> (gap: u16)
    requires
        a < MINUTES_PER_DAY,
        b < MINUTES_PER_DAY,
    ensures
        gap == shortest_gap(a as int, b as int),
{
    let gap: u16 = if a < b {
        b - a
    } else {
        a - b
    };
    if gap < MINUTES_PER_DAY - gap {
        gap
    } else {
        MINUTES_PER_DAY - gap
    }
}

impl Default for Schedule {
    fn default() -> (schedule: Self)
        ensures
            schedule@ == default_schedule(),
    {
        Schedule {
            night_start: "21:00".to_owned(),
            day_start: "07:00".to_owned(),
            transition_minutes: 30,
            day: Levels::neutral(),
            night: Levels { warmth: 50, brightness: 90 },
            timing: ScheduleTiming::Fixed,
            latitude: Coordinate { bits: 0 },
            longitude: Coordinate { bits: 0 },
        }
    }
}

impl Clone for Schedule {
    fn clone(&self) -> (copy: Self)
        ensures
            copy == *self,
    {
        Schedule {
            night_start: self.night_start.clone(),
            day_start: self.day_start.clone(),
            transition_minutes: self.transition_minutes,
            day: self.day,
            night: self.night,
            timing: self.timing,
            latitude: self.latitude,
            longitude: self.longitude,
        }
    }
}

impl Schedule {
    /// Checks that the schedule can be followed.
    pub fn validate(&self) -> (r: Result<(), Error>)
        ensures
            failure(r) == schedule_fault(self@),
    {
        if self.transition_minutes > MAX_TRANSITION_MINUTES {
            return Err(Error::new(ErrorKind::TransitionRange));
        }
        if let Err(error) = self.day.validate() {
            return Err(error);
        }
        if let Err(error) = self.night.validate() {
            return Err(error);
        }
        match self.timing {
            ScheduleTiming::Fixed => {},
            ScheduleTiming::Location => {
                if !self.latitude.within(POLE) {
                    return Err(Error::new(ErrorKind::LatitudeRange));
                }
                if !self.longitude.within(ANTIMERIDIAN) {
                    return Err(Error::new(ErrorKind::LongitudeRange));
                }
            },
        }
        self.validate_fixed_times()
    }

    /// Checks that the clock times differ and leave room for the transitions.
    pub fn validate_fixed_times(&self) -> (r: Result<(), Error>)
        ensures
            failure(r) == fixed_times_fault(self@),
    {
        let night: u16 = match parse_time(self.night_start.as_str()) {
            Ok(minutes) => minutes,
            Err(error) => return Err(error),
        };
        let day: u16 = match parse_time(self.day_start.as_str()) {
            Ok(minutes) => minutes,
            Err(error) => return Err(error),
        };
        if night == day {
            return Err(Error::new(ErrorKind::SameStart));
        }
        if self.transition_minutes > gap_between(night, day) {
            return Err(Error::new(ErrorKind::TransitionTooLong));
        }
        Ok(())
    }
}

// ── presets ──────────────────────────────────────────────────────────────────

/// A reusable filter profile that does not include the on/off toggle.
#[derive(Debug, PartialEq)]
pub struct Preset {
    pub automatic: bool,
    pub manual: Levels,
    pub schedule: Schedule,
}

/// A preset with its texts as sequences of characters.
pub struct PresetView {
    pub automatic: bool,
    pub manual: Levels,
    pub schedule: ScheduleView,
}

impl View for Preset {
    type V = PresetView;

    open spec fn view(&self) -> PresetView {
        PresetView {
            automatic: self.automatic,
            manual: self.manual,
            schedule: self.schedule@,
        }
    }
}

/// What is wrong with a preset.
pub open spec fn preset_fault(preset: PresetView) -> Option<ErrorView> {
    if levels_fault(preset.manual) is Some {
        levels_fault(preset.manual)
    } else {
        schedule_fault(preset.schedule)
    }
}

/// The preset that settings amount to.
pub open spec fn preset_of(settings: SettingsView) -> PresetView {
    PresetView {
        automatic: settings.automatic,
        manual: settings.manual,
        schedule: settings.schedule,
    }
}

/// Settings with a preset put into force.
pub open spec fn with_preset(settings: SettingsView, preset: PresetView) -> SettingsView {
    SettingsView {
        automatic: preset.automatic,
        manual: preset.manual,
        schedule: preset.schedule,
        ..settings
    }
}

impl Clone for Preset {
    fn clone(&self) -> (copy: Self)
        ensures
            copy == *self,
    {
        Preset { automatic: self.automatic, manual: self.manual, schedule: self.schedule.clone() }
    }
}

impl Preset {
    /// The preset that settings amount to.
    pub fn from_settings(settings: &Settings) -> (preset: Self)
        ensures
            preset@ == preset_of(settings@),
    {
        Preset {
            automatic: settings.automatic,
            manual: settings.manual,
            schedule: settings.schedule.clone(),
        }
    }

    /// Puts the preset into force.
    pub fn apply_to(&self, settings: &mut Settings)
        ensures
            final(settings)@ == with_preset(old(settings)@, self@),
    {
        settings.automatic = self.automatic;
        settings.manual = self.manual;
        settings.schedule = self.schedule.clone();
    }

    /// Checks that the preset can be put into force.
    pub fn validate(&self) -> (r: Result<(), Error>)
        ensures
            failure(r) == preset_fault(self@),
    {
        if let Err(error) = self.manual.validate() {
            return Err(error);
        }
        self.schedule.validate()
    }
}

/// A preset under its name.
#[derive(Debug, PartialEq)]
pub struct Entry {
    pub name: String,
    pub preset: Preset,
}

/// A named preset with its texts as sequences of characters.
pub struct EntryView {
    pub name: Seq<char>,
    pub preset: PresetView,
}

impl View for Entry {
    type V = EntryView;

    open spec fn view(&self) -> EntryView {
        EntryView { name: self.name@, preset: self.preset@ }
    }
}

/// Entries in the order of their names, no name twice.
pub open spec fn ascending(entries: Seq<EntryView>) -> bool {
    forall|i: int, j: int|
        0 <= i < j < entries.len() ==> precedes(#[trigger] entries[i].name, #[trigger] entries[j].name)
}

/// Whether an entry has the name.
pub open spec fn has_name(entries: Seq<EntryView>, name: Seq<char>) -> bool {
    exists|i: int| 0 <= i < entries.len() && (#[trigger] entries[i]).name == name
}

/// The preset under a name.
pub open spec fn lookup(entries: Seq<EntryView>, name: Seq<char>) -> Option<PresetView> {
    if has_name(entries, name) {
        Some(
            entries[choose|i: int|
                0 <= i < entries.len() && (#[trigger] entries[i]).name == name].preset,
        )
    } else {
        None
    }
}

/// How many entries come before a name.
pub open spec fn slot(entries: Seq<EntryView>, name: Seq<char>) -> nat
    decreases entries.len(),
{
    if entries.len() == 0 || !precedes(entries[0].name, name) {
        0
    } else {
        1 + slot(entries.drop_first(), name)
    }
}

/// Whether the entry at the place of a name has that name.
pub open spec fn taken(entries: Seq<EntryView>, name: Seq<char>) -> bool {
    let at = slot(entries, name) as int;
    at < entries.len() && entries[at].name == name
}

/// The entries with one more, or with the one of that name replaced.
pub open spec fn with_entry(entries: Seq<EntryView>, entry: EntryView) -> Seq<EntryView> {
    let at = slot(entries, entry.name) as int;
    if taken(entries, entry.name) {
        entries.update(at, entry)
    } else {
        entries.insert(at, entry)
    }
}

/// The entries without the one of a name.
pub open spec fn without_name(entries: Seq<EntryView>, name: Seq<char>) -> Seq<EntryView> {
    if taken(entries, name) {
        entries.remove(slot(entries, name) as int)
    } else {
        entries
    }
}

proof fn lemma_slot(entries: Seq<EntryView>, name: Seq<char>)
    requires
        ascending(entries),
    ensures
        slot(entries, name) <= entries.len(),
        forall|i: int|
            0 <= i < slot(entries, name) ==> precedes(#[trigger] entries[i].name, name),
        forall|i: int|
            slot(entries, name) <= i < entries.len() ==> !precedes(
                #[trigger] entries[i].name,
                name,
            ),
    decreases entries.len(),
{
    if entries.len() > 0 {
        if precedes(entries[0].name, name) {
            let rest = entries.drop_first();
            assert(ascending(rest)) by {
                assert forall|i: int, j: int| 0 <= i < j < rest.len() implies precedes(
                    #[trigger] rest[i].name,
                    #[trigger] rest[j].name,
                ) by {
                    assert(rest[i] == entries[i + 1] && rest[j] == entries[j + 1]);
                }
            }
            lemma_slot(rest, name);
            assert forall|i: int| 0 <= i < slot(entries, name) implies precedes(
                #[trigger] entries[i].name,
                name,
            ) by {
                if i > 0 {
                    assert(rest[i - 1] == entries[i]);
                }
            }
            assert forall|i: int| slot(entries, name) <= i < entries.len() implies !precedes(
                #[trigger] entries[i].name,
                name,
            ) by {
                assert(rest[i - 1] == entries[i]);
            }
        } else {
            assert forall|i: int| 0 <= i < entries.len() implies !precedes(
                #[trigger] entries[i].name,
                name,
            ) by {
                if i > 0 && precedes(entries[i].name, name) {
                    lemma_precedes_transitive(entries[0].name, entries[i].name, name);
                }
            }
        }
    }
}

/// An ascending list has a name exactly where the name would go.
proof fn lemma_taken(entries: Seq<EntryView>, name: Seq<char>)
    requires
        ascending(entries),
    ensures
        taken(entries, name) == has_name(entries, name),
        taken(entries, name) ==> lookup(entries, name) == Some(
            entries[slot(entries, name) as int].preset,
        ),
{
    lemma_slot(entries, name);
    let at = slot(entries, name) as int;
    if taken(entries, name) {
        assert(entries[at].name == name);
        lemma_lookup_at(entries, at);
    }
    if has_name(entries, name) {
        let i = choose|i: int| 0 <= i < entries.len() && (#[trigger] entries[i]).name == name;
        lemma_precedes_irreflexive(name);
        assert(i >= at);
        if i > at {
            lemma_precedes_total(entries[at].name, name);
            assert(precedes(entries[at].name, entries[i].name));
        }
        assert(i == at);
    }
}

/// In an ascending list each entry is found under its name.
proof fn lemma_lookup_at(entries: Seq<EntryView>, at: int)
    requires
        ascending(entries),
        0 <= at < entries.len(),
    ensures
        lookup(entries, entries[at].name) == Some(entries[at].preset),
{
    let name = entries[at].name;
    assert(has_name(entries, name));
    let i = choose|i: int| 0 <= i < entries.len() && (#[trigger] entries[i]).name == name;
    lemma_precedes_irreflexive(name);
    assert(i == at);
}

/// A list with an entry added stays ascending, and finds under every name what it found before,
/// but for the name of the entry.
pub proof fn adding_is_lookup_update(entries: Seq<EntryView>, entry: EntryView)
    requires
        ascending(entries),
    ensures
        ascending(with_entry(entries, entry)),
        lookup(with_entry(entries, entry), entry.name) == Some(entry.preset),
        forall|name: Seq<char>|
            name != entry.name ==> #[trigger] lookup(with_entry(entries, entry), name) == lookup(
                entries,
                name,
            ),
{
    let after = with_entry(entries, entry);
    let at = slot(entries, entry.name) as int;
    let replaces = taken(entries, entry.name);
    lemma_slot(entries, entry.name);
    lemma_taken(entries, entry.name);
    // Where each entry of the new list stood in the old one.
    let before = |i: int|
        if i < at || replaces {
            i
        } else {
            i - 1
        };
    assert forall|i: int| 0 <= i < after.len() && i != at implies after[i] == entries[before(i)] by {}
    assert(after[at] == entry);
    assert forall|i: int, j: int| 0 <= i < j < after.len() implies precedes(
        #[trigger] after[i].name,
        #[trigger] after[j].name,
    ) by {
        if i == at {
            let k = before(j);
            assert(after[j] == entries[k]);
            if replaces {
                assert(precedes(entries[at].name, entries[k].name));
            } else {
                lemma_precedes_total(entries[k].name, entry.name);
                assert(entries[k].name != entry.name);
            }
        } else if j == at {
            assert(after[i] == entries[before(i)]);
        } else {
            assert(after[i] == entries[before(i)] && after[j] == entries[before(j)]);
            assert(precedes(entries[before(i)].name, entries[before(j)].name));
        }
    }
    lemma_lookup_at(after, at);
    assert forall|name: Seq<char>| name != entry.name implies #[trigger] lookup(after, name)
        == lookup(entries, name) by {
        if has_name(entries, name) {
            let i = choose|i: int| 0 <= i < entries.len() && (#[trigger] entries[i]).name == name;
            let k = if i < at || replaces {
                i
            } else {
                i + 1
            };
            lemma_lookup_at(entries, i);
            assert(after[k] == entries[i]);
            lemma_lookup_at(after, k);
        }
        if has_name(after, name) {
            let k = choose|k: int| 0 <= k < after.len() && (#[trigger] after[k]).name == name;
            assert(k != at);
            assert(entries[before(k)].name == name);
        }
    }
}

/// A list with a name removed stays ascending, and finds under every name what it found before,
/// but for that name.
pub proof fn removing_is_lookup_update(entries: Seq<EntryView>, name: Seq<char>)
    requires
        ascending(entries),
    ensures
        ascending(without_name(entries, name)),
        lookup(without_name(entries, name), name) is None,
        forall|other: Seq<char>|
            other != name ==> #[trigger] lookup(without_name(entries, name), other) == lookup(
                entries,
                other,
            ),
{
    lemma_slot(entries, name);
    lemma_taken(entries, name);
    if taken(entries, name) {
        let after = without_name(entries, name);
        let at = slot(entries, name) as int;
        let before = |i: int|
            if i < at {
                i
            } else {
                i + 1
            };
        assert forall|i: int| 0 <= i < after.len() implies after[i] == entries[before(i)] by {}
        assert forall|i: int, j: int| 0 <= i < j < after.len() implies precedes(
            #[trigger] after[i].name,
            #[trigger] after[j].name,
        ) by {
            assert(precedes(entries[before(i)].name, entries[before(j)].name));
        }
        if has_name(after, name) {
            let k = choose|k: int| 0 <= k < after.len() && (#[trigger] after[k]).name == name;
            assert(entries[before(k)].name == name);
            lemma_precedes_irreflexive(name);
            if k < at {
                assert(precedes(entries[before(k)].name, entries[at].name));
            } else {
                assert(precedes(entries[at].name, entries[before(k)].name));
            }
        }
        assert forall|other: Seq<char>| other != name implies #[trigger] lookup(after, other)
            == lookup(entries, other) by {
            if has_name(entries, other) {
                let i = choose|i: int|
                    0 <= i < entries.len() && (#[trigger] entries[i]).name == other;
                let k = if i < at {
                    i
                } else {
                    i - 1
                };
                lemma_lookup_at(entries, i);
                assert(after[k] == entries[i]);
                lemma_lookup_at(after, k);
            }
            if has_name(after, other) {
                let k = choose|k: int| 0 <= k < after.len() && (#[trigger] after[k]).name == other;
                assert(entries[before(k)].name == other);
            }
        }
    }
}

/// Named presets, kept in the order of their names.
#[derive(Debug, PartialEq)]
pub struct Presets {
    entries: Vec<Entry>,
}

/// Entries with their texts as sequences of characters.
pub open spec fn entry_views(entries: Seq<Entry>) -> Seq<EntryView> {
    Seq::new(entries.len(), |i: int| entries[i]@)
}

/// The names of entries.
pub open spec fn names_of(entries: Seq<EntryView>) -> Seq<Seq<char>> {
    Seq::new(entries.len(), |i: int| entries[i].name)
}

impl View for Presets {
    type V = Seq<EntryView>;

    closed spec fn view(&self) -> Seq<EntryView> {
        entry_views(self.entries@)
    }
}

impl Presets {
    #[verifier::type_invariant]
    spec fn inv(self) -> bool {
        ascending(self@)
    }

    pub fn new() -> (presets: Self)
        ensures
            presets@ == Seq::<EntryView>::empty(),
    {
        let presets = Presets { entries: Vec::new() };
        assert(presets@ =~= Seq::<EntryView>::empty());
        presets
    }

    pub fn len(&self) -> (n: usize)
        ensures
            n == self@.len(),
    {
        self.entries.len()
    }

    pub fn is_empty(&self) -> (r: bool)
        ensures
            r == (self@.len() == 0),
    {
        self.entries.len() == 0
    }

    /// The entry at a position in the order of names.
    pub fn entry(&self, i: usize) -> (entry: &Entry)
        requires
            i < self@.len(),
        ensures
            entry@ == self@[i as int],
    {
        &self.entries[i]
    }

    /// How many entries come before a name.
    fn position(&self, name: &str) -> (at: usize)
        ensures
            at == slot(self@, name@),
            at <= self@.len(),
    {
        proof {
            use_type_invariant(self);
            lemma_slot(self@, name@);
        }
        let mut at: usize = 0;
        while at < self.entries.len() && comes_before(self.entries[at].name.as_str(), name)
            invariant
                at <= slot(self@, name@) <= self@.len(),
                self@ == entry_views(self.entries@),
                forall|i: int|
                    0 <= i < slot(self@, name@) ==> precedes(#[trigger] self@[i].name, name@),
                forall|i: int|
                    slot(self@, name@) <= i < self@.len() ==> !precedes(
                        #[trigger] self@[i].name,
                        name@,
                    ),
            decreases self.entries.len() - at,
        {
            proof {
                assert(self@[at as int].name == self.entries@[at as int].name@);
            }
            at = at + 1;
        }
        proof {
            if at < self@.len() {
                assert(self@[at as int].name == self.entries@[at as int].name@);
            }
        }
        at
    }

    /// The preset under a name.
    pub fn get(&self, name: &str) -> (preset: Option<&Preset>)
        ensures
            match preset {
                Some(p) => lookup(self@, name@) == Some(p@),
                None => lookup(self@, name@) is None,
            },
    {
        proof {
            use_type_invariant(self);
            lemma_taken(self@, name@);
        }
        let at: usize = self.position(name);
        if at < self.entries.len() && *self.entries[at].name.as_str() == *name {
            Some(&self.entries[at].preset)
        } else {
            None
        }
    }

    pub fn contains_key(&self, name: &str) -> (r: bool)
        ensures
            r == has_name(self@, name@),
    {
        self.get(name).is_some()
    }

    /// Puts a preset under a name, in place of the one that was there.
    pub fn insert(&mut self, name: String, preset: Preset)
        ensures
            final(self)@ == with_entry(old(self)@, EntryView { name: name@, preset: preset@ }),
            ascending(final(self)@),
    {
        proof {
            use_type_invariant(&*self);
            adding_is_lookup_update(self@, EntryView { name: name@, preset: preset@ });
        }
        let ghost before = self@;
        let at: usize = self.position(name.as_str());
        let replaces: bool = at < self.entries.len() && *self.entries[at].name.as_str()
            == *name.as_str();
        let mut entries: Vec<Entry> = Vec::new();
        std::mem::swap(&mut entries, &mut self.entries);
        let ghost entry = EntryView { name: name@, preset: preset@ };
        if replaces {
            entries.set(at, Entry { name, preset });
        } else {
            entries.insert(at, Entry { name, preset });
        }
        proof {
            assert(entry_views(entries@) =~= with_entry(before, entry));
        }
        self.entries = entries;
    }

    /// Takes the preset under a name out, and says whether there was one.
    pub fn remove(&mut self, name: &str) -> (found: bool)
        ensures
            found == has_name(old(self)@, name@),
            final(self)@ == without_name(old(self)@, name@),
            ascending(final(self)@),
    {
        proof {
            use_type_invariant(&*self);
            lemma_taken(self@, name@);
            removing_is_lookup_update(self@, name@);
        }
        let ghost before = self@;
        let at: usize = self.position(name);
        if !(at < self.entries.len() && *self.entries[at].name.as_str() == *name) {
            return false;
        }
        let mut entries: Vec<Entry> = Vec::new();
        std::mem::swap(&mut entries, &mut self.entries);
        let _ = entries.remove(at);
        proof {
            assert(entry_views(entries@) =~= without_name(before, name@));
        }
        self.entries = entries;
        true
    }

    /// The names in order.
    pub fn names(&self) -> (names: Vec<String>)
        ensures
            crate::text::texts(names@) == names_of(self@),
    {
        let mut names: Vec<String> = Vec::new();
        for i in 0..self.entries.len()
            invariant
                names.len() == i,
                forall|j: int| 0 <= j < i ==> (#[trigger] names@[j])@ == self.entries@[j].name@,
        {
            names.push(self.entries[i].name.clone());
        }
        assert(crate::text::texts(names@) =~= names_of(self@));
        names
    }
}

impl Clone for Presets {
    fn clone(&self) -> (copy: Self)
        ensures
            copy@ == self@,
    {
        let mut entries: Vec<Entry> = Vec::new();
        for i in 0..self.entries.len()
            invariant
                entries.len() == i,
                forall|j: int| 0 <= j < i ==> (#[trigger] entries@[j])@ == self.entries@[j]@,
        {
            entries.push(
                Entry {
                    name: self.entries[i].name.clone(),
                    preset: self.entries[i].preset.clone(),
                },
            );
        }
        proof {
            use_type_invariant(self);
            assert(entry_views(entries@) =~= self@);
        }
        Presets { entries }
    }
}

// ── settings ─────────────────────────────────────────────────────────────────

/// Everything that the user can set.
#[derive(Debug, PartialEq)]
pub struct Settings {
    pub version: u32,
    pub enabled: bool,
    pub automatic: bool,
    pub manual: Levels,
    pub schedule: Schedule,
    /// Named snapshots of mode, levels and schedule; whether the filter is on is separate.
    pub presets: Presets,
}

/// Settings with their texts as sequences of characters.
pub struct SettingsView {
    pub version: u32,
    pub enabled: bool,
    pub automatic: bool,
    pub manual: Levels,
    pub schedule: ScheduleView,
    pub presets: Seq<EntryView>,
}

impl View for Settings {
    type V = SettingsView;

    open spec fn view(&self) -> SettingsView {
        SettingsView {
            version: self.version,
            enabled: self.enabled,
            automatic: self.automatic,
            manual: self.manual,
            schedule: self.schedule@,
            presets: self.presets@,
        }
    }
}

/// The settings of a first start.
pub open spec fn default_settings() -> SettingsView {
    SettingsView {
        version: CONFIG_VERSION,
        enabled: true,
        automatic: true,
        manual: Levels { warmth: 50, brightness: 90 },
        schedule: default_schedule(),
        presets: Seq::empty(),
    }
}

/// What is wrong with a preset and its name.
pub open spec fn entry_fault(entry: EntryView) -> Option<ErrorView> {
    if is_blank(entry.name) {
        Some(fault(ErrorKind::PresetNameBlank))
    } else if has_control(entry.name) {
        Some(fault_about(ErrorKind::PresetNameControl, entry.name))
    } else {
        match preset_fault(entry.preset) {
            Some(error) => Some(fault_in_preset(error, entry.name)),
            None => None,
        }
    }
}

/// What is wrong with the first wrong entry, in the order of names.
pub open spec fn entries_fault(entries: Seq<EntryView>) -> Option<ErrorView>
    decreases entries.len(),
{
    if entries.len() == 0 {
        None
    } else if entry_fault(entries[0]) is Some {
        entry_fault(entries[0])
    } else {
        entries_fault(entries.drop_first())
    }
}

/// What is wrong with settings.
pub open spec fn settings_fault(settings: SettingsView) -> Option<ErrorView> {
    if settings.version != CONFIG_VERSION {
        Some(fault(ErrorKind::ConfigVersion(settings.version)))
    } else if levels_fault(settings.manual) is Some {
        levels_fault(settings.manual)
    } else if schedule_fault(settings.schedule) is Some {
        schedule_fault(settings.schedule)
    } else {
        entries_fault(settings.presets)
    }
}

/// What keeps settings from being saved as a preset under a name.
pub open spec fn new_preset_fault(settings: SettingsView, name: Seq<char>) -> Option<ErrorView> {
    if is_blank(name) {
        Some(fault(ErrorKind::NewPresetNameBlank))
    } else if has_control(name) {
        Some(fault(ErrorKind::NewPresetNameControl))
    } else {
        preset_fault(preset_of(settings))
    }
}

impl Default for Settings {
    fn default() -> (settings: Self)
        ensures
            settings@ == default_settings(),
    {
        Settings {
            version: CONFIG_VERSION,
            enabled: true,
            automatic: true,
            manual: Levels { warmth: 50, brightness: 90 },
            schedule: Schedule::default(),
            presets: Presets::new(),
        }
    }
}

impl Clone for Settings {
    fn clone(&self) -> (copy: Self)
        ensures
            copy@ == self@,
    {
        Settings {
            version: self.version,
            enabled: self.enabled,
            automatic: self.automatic,
            manual: self.manual,
            schedule: self.schedule.clone(),
            presets: self.presets.clone(),
        }
    }
}

impl Settings {
    /// Checks that the settings can be put into force.
    pub fn validate(&self) -> (r: Result<(), Error>)
        ensures
            failure(r) == settings_fault(self@),
    {
        if self.version != CONFIG_VERSION {
            return Err(Error::new(ErrorKind::ConfigVersion(self.version)));
        }
        if let Err(error) = self.manual.validate() {
            return Err(error);
        }
        if let Err(error) = self.schedule.validate() {
            return Err(error);
        }
        let ghost all = self.presets@;
        let mut i: usize = 0;
        proof {
            assert(all.skip(0) =~= all);
        }
        while i < self.presets.len()
            invariant
                all == self.presets@,
                i <= all.len(),
                self.version == CONFIG_VERSION,
                levels_fault(self.manual) is None,
                schedule_fault(self.schedule@) is None,
                entries_fault(all) == entries_fault(all.skip(i as int)),
            decreases all.len() - i,
        {
            let entry: &Entry = self.presets.entry(i);
            proof {
                assert(all.skip(i as int).drop_first() =~= all.skip(i + 1));
                assert(all.skip(i as int)[0] == entry@);
            }
            if blank(entry.name.as_str()) {
                return Err(Error::new(ErrorKind::PresetNameBlank));
            }
            if contains_control(entry.name.as_str()) {
                return Err(Error::about(ErrorKind::PresetNameControl, entry.name.as_str()));
            }
            if let Err(error) = entry.preset.validate() {
                return Err(error.in_preset(entry.name.as_str()));
            }
            i = i + 1;
        }
        Ok(())
    }

    /// Saves the mode, the levels and the schedule as a preset.
    pub fn save_preset(&mut self, name: &str) -> (r: Result<(), Error>)
        ensures
            failure(r) == new_preset_fault(old(self)@, name@),
            r is Err ==> final(self)@ == old(self)@,
            r is Ok ==> final(self)@ == (SettingsView {
                presets: with_entry(
                    old(self)@.presets,
                    EntryView { name: name@, preset: preset_of(old(self)@) },
                ),
                ..old(self)@
            }),
    {
        if blank(name) {
            return Err(Error::new(ErrorKind::NewPresetNameBlank));
        }
        if contains_control(name) {
            return Err(Error::new(ErrorKind::NewPresetNameControl));
        }
        let preset: Preset = Preset::from_settings(self);
        if let Err(error) = preset.validate() {
            return Err(error);
        }
        self.presets.insert(name.to_owned(), preset);
        Ok(())
    }

    /// Puts the preset of a name into force.
    pub fn apply_preset(&mut self, name: &str) -> (r: Result<(), Error>)
        ensures
            match lookup(old(self)@.presets, name@) {
                Some(preset) => r is Ok && final(self)@ == with_preset(old(self)@, preset),
                None => failure(r) == Some(fault_about(ErrorKind::UnknownPreset, name@))
                    && final(self)@ == old(self)@,
            },
    {
        let preset: Preset = match self.presets.get(name) {
            Some(preset) => preset.clone(),
            None => return Err(Error::about(ErrorKind::UnknownPreset, name)),
        };
        preset.apply_to(self);
        Ok(())
    }

    /// Removes the preset of a name.
    pub fn delete_preset(&mut self, name: &str) -> (r: Result<(), Error>)
        ensures
            failure(r) == (if has_name(old(self)@.presets, name@) {
                None
            } else {
                Some(fault_about(ErrorKind::UnknownPreset, name@))
            }),
            final(self)@ == (SettingsView {
                presets: without_name(old(self)@.presets, name@),
                ..old(self)@
            }),
    {
        if !self.presets.remove(name) {
            return Err(Error::about(ErrorKind::UnknownPreset, name));
        }
        Ok(())
    }
}

// ── equality ─────────────────────────────────────────────────────────────────

/// Whether two schedules are equal. Coordinates are compared as numbers.
pub open spec fn same_schedule(a: ScheduleView, b: ScheduleView) -> bool {
    &&& a.night_start == b.night_start
    &&& a.day_start == b.day_start
    &&& a.transition_minutes == b.transition_minutes
    &&& a.day == b.day
    &&& a.night == b.night
    &&& a.timing == b.timing
    &&& a.latitude.same_spec(b.latitude)
    &&& a.longitude.same_spec(b.longitude)
}

/// Whether two presets are equal.
pub open spec fn same_preset(a: PresetView, b: PresetView) -> bool {
    a.automatic == b.automatic && a.manual == b.manual && same_schedule(a.schedule, b.schedule)
}

/// Whether two lists of presets are equal.
pub open spec fn same_entries(a: Seq<EntryView>, b: Seq<EntryView>) -> bool {
    a.len() == b.len() && forall|i: int|
        0 <= i < a.len() ==> (#[trigger] a[i]).name == b[i].name && same_preset(
            a[i].preset,
            b[i].preset,
        )
}

/// Whether settings are equal.
pub open spec fn same_settings(a: SettingsView, b: SettingsView) -> bool {
    &&& a.version == b.version
    &&& a.enabled == b.enabled
    &&& a.automatic == b.automatic
    &&& a.manual == b.manual
    &&& same_schedule(a.schedule, b.schedule)
    &&& same_entries(a.presets, b.presets)
}

impl Schedule {
    /// Whether the schedule equals another.
    pub fn same(&self, other: &Schedule) -> (r: bool)
        ensures
            r == same_schedule(self@, other@),
    {
        *self.night_start.as_str() == *other.night_start.as_str() && *self.day_start.as_str()
            == *other.day_start.as_str() && self.transition_minutes == other.transition_minutes
            && self.day == other.day && self.night == other.night && self.timing == other.timing
            && self.latitude == other.latitude && self.longitude == other.longitude
    }
}

impl Preset {
    /// Whether the preset equals another.
    pub fn same(&self, other: &Preset) -> (r: bool)
        ensures
            r == same_preset(self@, other@),
    {
        self.automatic == other.automatic && self.manual == other.manual && self.schedule.same(
            &other.schedule,
        )
    }
}

impl Presets {
    /// Whether the presets equal others, names included.
    pub fn same(&self, other: &Presets) -> (r: bool)
        ensures
            r == same_entries(self@, other@),
    {
        if self.entries.len() != other.entries.len() {
            return false;
        }
        let mut i: usize = 0;
        while i < self.entries.len()
            invariant
                i <= self.entries.len(),
                self.entries.len() == other.entries.len(),
                self@ == entry_views(self.entries@),
                other@ == entry_views(other.entries@),
                forall|j: int|
                    0 <= j < i ==> (#[trigger] self@[j]).name == other@[j].name && same_preset(
                        self@[j].preset,
                        other@[j].preset,
                    ),
            decreases self.entries.len() - i,
        {
            let a: &Entry = &self.entries[i];
            let b: &Entry = &other.entries[i];
            assert(self@[i as int] == a@ && other@[i as int] == b@);
            if *a.name.as_str() != *b.name.as_str() || !a.preset.same(&b.preset) {
                return false;
            }
            i = i + 1;
        }
        true
    }
}

impl Settings {
    /// Whether the settings equal others.
    pub fn same(&self, other: &Settings) -> (r: bool)
        ensures
            r == same_settings(self@, other@),
    {
        self.version == other.version && self.enabled == other.enabled && self.automatic
            == other.automatic && self.manual == other.manual && self.schedule.same(
            &other.schedule,
        ) && self.presets.same(&other.presets)
    }
}

// ── what operations on settings keep ─────────────────────────────────────────

proof fn lemma_entries_fault(entries: Seq<EntryView>)
    ensures
        entries_fault(entries) is None <==> forall|i: int|
            0 <= i < entries.len() ==> entry_fault(#[trigger] entries[i]) is None,
    decreases entries.len(),
{
    if entries.len() > 0 {
        let rest = entries.drop_first();
        lemma_entries_fault(rest);
        assert forall|i: int| 0 <= i < entries.len() implies (i == 0 || entries[i] == rest[i - 1]) by {}
        if entries_fault(entries) is Some {
            if entry_fault(entries[0]) is None {
                let i = choose|i: int|
                    0 <= i < rest.len() && entry_fault(#[trigger] rest[i]) is Some;
                assert(entry_fault(entries[i + 1]) is Some);
            }
        } else {
            assert forall|i: int| 0 <= i < entries.len() implies entry_fault(
                #[trigger] entries[i],
            ) is None by {
                if i > 0 {
                    assert(entry_fault(rest[i - 1]) is None);
                }
            }
        }
    }
}

/// Settings are valid exactly if their version is the current one, their levels and their schedule
/// are valid, and every preset is valid under a proper name.
pub proof fn valid_settings(settings: SettingsView)
    ensures
        settings_fault(settings) is None <==> settings.version == CONFIG_VERSION && preset_fault(
            preset_of(settings),
        ) is None && forall|i: int|
            0 <= i < settings.presets.len() ==> entry_fault(#[trigger] settings.presets[i]) is None,
{
    lemma_entries_fault(settings.presets);
}

/// Valid settings stay valid when a preset is saved, and the saved preset is what they were.
pub proof fn saving_keeps_settings_valid(settings: SettingsView, name: Seq<char>)
    requires
        ascending(settings.presets),
        settings_fault(settings) is None,
        new_preset_fault(settings, name) is None,
    ensures
        ({
            let entry = EntryView { name, preset: preset_of(settings) };
            let after = SettingsView { presets: with_entry(settings.presets, entry), ..settings };
            &&& settings_fault(after) is None
            &&& ascending(after.presets)
            &&& lookup(after.presets, name) == Some(preset_of(settings))
        }),
{
    let entry = EntryView { name, preset: preset_of(settings) };
    let after = with_entry(settings.presets, entry);
    adding_is_lookup_update(settings.presets, entry);
    lemma_slot(settings.presets, name);
    lemma_entries_fault(settings.presets);
    let at = slot(settings.presets, name) as int;
    assert forall|i: int| 0 <= i < after.len() implies entry_fault(#[trigger] after[i]) is None by {
        if i < at || (i > at && taken(settings.presets, name)) {
            assert(after[i] == settings.presets[i]);
        } else if i > at {
            assert(after[i] == settings.presets[i - 1]);
        }
    }
    lemma_entries_fault(after);
}

/// Valid settings stay valid when one of their presets is put into force.
pub proof fn applying_keeps_settings_valid(settings: SettingsView, name: Seq<char>)
    requires
        settings_fault(settings) is None,
        lookup(settings.presets, name) is Some,
    ensures
        settings_fault(with_preset(settings, lookup(settings.presets, name)->0)) is None,
{
    lemma_entries_fault(settings.presets);
    let i = choose|i: int|
        0 <= i < settings.presets.len() && (#[trigger] settings.presets[i]).name == name;
    assert(entry_fault(settings.presets[i]) is None);
}

/// Valid settings stay valid when a preset is removed.
pub proof fn deleting_keeps_settings_valid(settings: SettingsView, name: Seq<char>)
    requires
        ascending(settings.presets),
        settings_fault(settings) is None,
    ensures
        settings_fault(
            SettingsView { presets: without_name(settings.presets, name), ..settings },
        ) is None,
{
    lemma_entries_fault(settings.presets);
    lemma_slot(settings.presets, name);
    let after = without_name(settings.presets, name);
    let at = slot(settings.presets, name) as int;
    assert forall|i: int| 0 <= i < after.len() implies entry_fault(#[trigger] after[i]) is None by {
        if i < at || !taken(settings.presets, name) {
            assert(after[i] == settings.presets[i]);
        } else {
            assert(after[i] == settings.presets[i + 1]);
        }
    }
    lemma_entries_fault(after);
}

/// A preset that was saved brings back the mode, the levels and the schedule of the time when it
/// was saved, whatever they became since; whether the filter is on stays as it is.
pub proof fn saved_preset_restores(before: SettingsView, now: SettingsView, name: Seq<char>)
    requires
        ascending(before.presets),
        now.presets == with_entry(
            before.presets,
            EntryView { name, preset: preset_of(before) },
        ),
    ensures
        lookup(now.presets, name) == Some(preset_of(before)),
        ({
            let restored = with_preset(now, lookup(now.presets, name)->0);
            &&& preset_of(restored) == preset_of(before)
            &&& restored.enabled == now.enabled
            &&& restored.presets == now.presets
        }),
{
    adding_is_lookup_update(before.presets, EntryView { name, preset: preset_of(before) });
}

/// The settings of a first start are valid.
pub proof fn default_settings_are_valid()
    ensures
        settings_fault(default_settings()) is None,
{
    reveal_strlit("21:00");
    reveal_strlit("07:00");
    assert("21:00"@ =~= clock_text(1260));
    assert("07:00"@ =~= clock_text(420));
    clock_text_reads_back(1260);
    clock_text_reads_back(420);
}

pub(crate) proof fn lemma_removed_length(entries: Seq<EntryView>, name: Seq<char>)
    requires
        ascending(entries),
        has_name(entries, name),
    ensures
        without_name(entries, name).len() == entries.len() - 1,
{
    lemma_slot(entries, name);
    lemma_taken(entries, name);
}

// ── what settings mean ───────────────────────────────────────────────────────

/// Four digits with a colon in the middle name a minute of the day: the first two the hour, if it
/// is below 24, and the others the minute of the hour, if it is below 60.
pub proof fn four_digits_name_a_minute(a: char, b: char, c: char, d: char)
    requires
        '0' <= a <= '9',
        '0' <= b <= '9',
        '0' <= c <= '9',
        '0' <= d <= '9',
    ensures
        ({
            let hour = (a as int - 48) * 10 + (b as int - 48);
            let minute = (c as int - 48) * 10 + (d as int - 48);
            let read = time_of(seq![a, b, ':', c, d]);
            &&& hour < 24 && minute < 60 ==> read == Ok::<int, ErrorView>(hour * 60 + minute)
            &&& hour >= 24 || minute >= 60 ==> read is Err
        }),
{
    let text = seq![a, b, ':', c, d];
    reveal_with_fuel(colon_from, 4);
    reveal_with_fuel(scanned, 4);
    assert(text.take(2) =~= seq![a, b]);
    assert(text.skip(3) =~= seq![c, d]);
    assert(seq![a, b].drop_first() =~= seq![b]);
    assert(seq![c, d].drop_first() =~= seq![d]);
    assert(seq![b].drop_first() =~= Seq::<char>::empty());
    assert(seq![d].drop_first() =~= Seq::<char>::empty());
}

/// Only a text of five characters with a colon in the middle names a time.
pub proof fn times_have_five_characters(text: Seq<char>)
    ensures
        time_of(text) is Ok ==> text.len() == 5 && text[2] == ':' && text[0] != ':' && text[1]
            != ':',
{
    lemma_colon(text, 0);
    lemma_before_colon(text, 0, 0);
    lemma_before_colon(text, 0, 1);
}

proof fn lemma_before_colon(text: Seq<char>, from: int, k: int)
    requires
        0 <= from <= k,
    ensures
        colon_from(text, from) matches Some(i) ==> k < i ==> text[k] != ':',
    decreases text.len() - from,
{
    if from < text.len() && text[from] != ':' && from < k {
        lemma_before_colon(text, from + 1, k);
    }
}

/// A minute of the day is written with its hour and its minute of the hour as two digits each.
pub proof fn minutes_are_written_with_four_digits(minutes: int)
    requires
        0 <= minutes < 1440,
    ensures
        ({
            let text = clock_text(minutes);
            &&& text.len() == 5
            &&& text[0] as int - 48 == minutes / 60 / 10
            &&& text[1] as int - 48 == minutes / 60 % 10
            &&& text[2] == ':'
            &&& text[3] as int - 48 == minutes % 60 / 10
            &&& text[4] as int - 48 == minutes % 60 % 10
        }),
{
}

/// Levels are valid exactly if the warmth is at most one hundred percent and the brightness lies
/// between ten and one hundred percent.
pub proof fn valid_levels(levels: Levels)
    ensures
        levels_fault(levels) is None <==> levels.warmth <= 100 && 10 <= levels.brightness <= 100,
{
}

/// A schedule is valid exactly if its transition takes at most four hours and fits into the day and
/// into the night, its levels are valid, its clock times are times of day and differ, and its
/// coordinates lie on the globe where it goes by them.
pub proof fn valid_schedules(schedule: ScheduleView)
    ensures
        schedule_fault(schedule) is None <==> {
            &&& schedule.transition_minutes <= 240
            &&& levels_fault(schedule.day) is None
            &&& levels_fault(schedule.night) is None
            &&& schedule.timing == ScheduleTiming::Location ==> schedule.latitude.within_spec(POLE)
                && schedule.longitude.within_spec(ANTIMERIDIAN)
            &&& time_of(schedule.day_start) matches Ok(day) && time_of(
                schedule.night_start,
            ) matches Ok(night) && {
                &&& day != night
                &&& schedule.transition_minutes <= (night - day) % 1440
                &&& schedule.transition_minutes <= (day - night) % 1440
            }
        },
{
    times_lie_within_the_day(schedule.day_start);
    times_lie_within_the_day(schedule.night_start);
}

/// Settings are valid exactly if they have the current version, valid levels and a valid schedule,
/// and all their presets have these as well, each under a name that is not blank and has no control
/// characters.
pub proof fn valid_settings_have_valid_parts(settings: SettingsView)
    ensures
        settings_fault(settings) is None <==> {
            &&& settings.version == 1
            &&& levels_fault(settings.manual) is None
            &&& schedule_fault(settings.schedule) is None
            &&& forall|i: int|
                #![trigger settings.presets[i]]
                0 <= i < settings.presets.len() ==> levels_fault(
                    settings.presets[i].preset.manual,
                ) is None && schedule_fault(settings.presets[i].preset.schedule) is None
                    && !is_blank(settings.presets[i].name) && !has_control(
                    settings.presets[i].name,
                )
        },
{
    lemma_entries_fault(settings.presets);
    if settings_fault(settings) is None {
        assert forall|i: int| 0 <= i < settings.presets.len() implies entry_fault(
            #[trigger] settings.presets[i],
        ) is None by {}
    }
}

/// A preset is found under its name, and only a name that a preset has finds one.
pub proof fn presets_are_found_by_name(entries: Seq<EntryView>, name: Seq<char>)
    requires
        ascending(entries),
    ensures
        forall|i: int|
            0 <= i < entries.len() && (#[trigger] entries[i]).name == name ==> lookup(entries, name)
                == Some(entries[i].preset) && has_name(entries, name),
        (forall|i: int| 0 <= i < entries.len() ==> (#[trigger] entries[i]).name != name)
            ==> lookup(entries, name) is None && !has_name(entries, name),
{
    assert forall|i: int| 0 <= i < entries.len() && (#[trigger] entries[i]).name == name implies {
        &&& lookup(entries, name) == Some(entries[i].preset)
        &&& has_name(entries, name)
    } by {
        let k = choose|k: int| 0 <= k < entries.len() && (#[trigger] entries[k]).name == name;
        lemma_precedes_irreflexive(name);
        if i < k {
            assert(precedes(entries[i].name, entries[k].name));
        } else if k < i {
            assert(precedes(entries[k].name, entries[i].name));
        }
    }
}

/// Putting a preset into force takes its mode, its levels and its schedule over, each field of
/// them, and leaves the switch, the version and the presets alone. What settings are saved as has
/// their mode, their levels and their schedule.
pub proof fn presets_hold_mode_levels_and_schedule(settings: SettingsView, preset: PresetView)
    ensures
        ({
            let after = with_preset(settings, preset);
            &&& after.automatic == preset.automatic
            &&& after.manual == preset.manual
            &&& after.schedule == preset.schedule
            &&& after.enabled == settings.enabled
            &&& after.version == settings.version
            &&& after.presets == settings.presets
        }),
        preset_of(settings).automatic == settings.automatic,
        preset_of(settings).manual == settings.manual,
        preset_of(settings).schedule == settings.schedule,
        preset_of(with_preset(settings, preset)) == preset,
{
}

/// Settings that equal others agree with them in every field; coordinates agree as numbers, so that
/// the two zeros are equal. Settings with coordinates that are numbers equal themselves.
pub proof fn equal_settings_agree(a: SettingsView, b: SettingsView)
    ensures
        same_settings(a, b) ==> {
            &&& a.version == b.version
            &&& a.enabled == b.enabled
            &&& a.automatic == b.automatic
            &&& a.manual == b.manual
            &&& equal_but_for_zeros(a.schedule, b.schedule)
            &&& a.presets.len() == b.presets.len()
            &&& forall|i: int|
                0 <= i < a.presets.len() ==> (#[trigger] a.presets[i]).name == b.presets[i].name
                    && a.presets[i].preset.automatic == b.presets[i].preset.automatic
                    && a.presets[i].preset.manual == b.presets[i].preset.manual
                    && equal_but_for_zeros(a.presets[i].preset.schedule, b.presets[i].preset.schedule)
        },
        a == b && a.schedule.latitude.is_number_spec() && a.schedule.longitude.is_number_spec() && (
        forall|i: int|
            0 <= i < a.presets.len() ==> (
            #[trigger] a.presets[i]).preset.schedule.latitude.is_number_spec()
                && a.presets[i].preset.schedule.longitude.is_number_spec()) ==> same_settings(a, b),
{
}

/// Whether schedules agree in every field but for the signs of zero coordinates.
pub open spec fn equal_but_for_zeros(a: ScheduleView, b: ScheduleView) -> bool {
    &&& a == (ScheduleView { latitude: a.latitude, longitude: a.longitude, ..b })
    &&& a.latitude.bits == b.latitude.bits || (a.latitude.bits % 0x8000_0000_0000_0000 == 0
        && b.latitude.bits % 0x8000_0000_0000_0000 == 0)
    &&& a.longitude.bits == b.longitude.bits || (a.longitude.bits % 0x8000_0000_0000_0000 == 0
        && b.longitude.bits % 0x8000_0000_0000_0000 == 0)
}

/// A first start has the filter on and follows a schedule by the clock, with a neutral day from
/// seven and a night from nine at half warmth, a transition of half an hour, and no presets.
pub proof fn first_settings()
    ensures
        ({
            let settings = default_settings();
            &&& settings.version == 1
            &&& settings.enabled
            &&& settings.automatic
            &&& settings.manual == Levels { warmth: 50, brightness: 90 }
            &&& settings.presets.len() == 0
            &&& settings.schedule.timing == ScheduleTiming::Fixed
            &&& settings.schedule.transition_minutes == 30
            &&& settings.schedule.day == Levels { warmth: 0, brightness: 100 }
            &&& settings.schedule.night == Levels { warmth: 50, brightness: 90 }
            &&& settings.schedule.latitude.bits == 0
            &&& settings.schedule.longitude.bits == 0
            &&& time_of(settings.schedule.day_start) == Ok::<int, ErrorView>(7int * 60)
            &&& time_of(settings.schedule.night_start) == Ok::<int, ErrorView>(21int * 60)
        }),
{
    reveal_strlit("21:00");
    reveal_strlit("07:00");
    assert("21:00"@ =~= clock_text(1260));
    assert("07:00"@ =~= clock_text(420));
    clock_text_reads_back(1260);
    clock_text_reads_back(420);
}

/// A path behind a path starts with the one and ends with the other, with one slash between them
/// unless the first is empty.
pub proof fn joined_paths_hold_both(base: Seq<char>, rest: Seq<char>)
    ensures
        ({
            let path = path_joined(base, rest);
            let start = path.len() - rest.len();
            &&& path.skip(start) == rest
            &&& base.len() == 0 ==> path == rest
            &&& base.len() > 0 && base[base.len() - 1] == '/' ==> path.take(start) == base
            &&& base.len() > 0 && base[base.len() - 1] != '/' ==> path.take(start) == base + seq![
                '/',
            ]
        }),
{
    let path = path_joined(base, rest);
    assert(path.skip(path.len() - rest.len()) =~= rest);
    if base.len() == 0 {
        assert(path =~= rest);
    } else if base.last() == '/' {
        assert(path.take(path.len() - rest.len()) =~= base);
    } else {
        assert(path.take(path.len() - rest.len()) =~= base + seq!['/']);
    }
}

// ── where settings are kept ──────────────────────────────────────────────────

/// A path with a relative path behind it.
pub open spec fn path_joined(base: Seq<char>, rest: Seq<char>) -> Seq<char> {
    if base.len() == 0 || base.last() == '/' {
        base + rest
    } else {
        base.push('/') + rest
    }
}

/// Appends a relative path to a path.
pub fn path_join(base: &str, rest: &str) -> (path: String)
    ensures
        path@ == path_joined(base@, rest@),
{
    let chars: Vec<char> = characters(base);
    let mut path: String = base.to_owned();
    if chars.len() > 0 && chars[chars.len() - 1] != '/' {
        path.push('/');
    }
    path.append(rest);
    path
}

/// The file that settings are kept in.
#[derive(Debug)]
pub struct ConfigStore {
    path: String,
}

impl View for ConfigStore {
    type V = Seq<char>;

    closed spec fn view(&self) -> Seq<char> {
        self.path@
    }
}

impl Clone for ConfigStore {
    fn clone(&self) -> (copy: Self)
        ensures
            copy@ == self@,
    {
        ConfigStore { path: self.path.clone() }
    }
}

impl ConfigStore {
    /// The store in the user's configuration directory, given the values of `XDG_CONFIG_HOME`
    /// and `HOME`.
    pub fn discover(config_home: Option<String>, home: Option<String>) -> (store: Result<Self, Error>)
        ensures
            match (config_home, home) {
                (Some(base), _) => store is Ok && store->Ok_0@ == path_joined(
                    base@,
                    "waywarm/config.toml"@,
                ),
                (None, Some(home)) => store is Ok && store->Ok_0@ == path_joined(
                    path_joined(home@, ".config"@),
                    "waywarm/config.toml"@,
                ),
                (None, None) => failure(store) == Some(fault(ErrorKind::HomeUnset)),
            },
    {
        let base: String = match config_home {
            Some(path) => path,
            None => match home {
                Some(home) => path_join(home.as_str(), ".config"),
                None => return Err(Error::new(ErrorKind::HomeUnset)),
            },
        };
        Ok(Self::at(path_join(base.as_str(), "waywarm/config.toml")))
    }

    pub fn at(path: String) -> (store: Self)
        ensures
            store@ == path@,
    {
        ConfigStore { path }
    }

    pub fn path(&self) -> (path: &str)
        ensures
            path@ == self@,
    {
        self.path.as_str()
    }
}

/// What is wrong is told by its kind: of levels the warmth first; of a schedule the transition, the
/// levels of the day and of the night, the coordinates that it goes by, and then its times.
pub proof fn faults_are_told_by_their_kind(schedule: ScheduleView, levels: Levels)
    ensures
        levels.warmth > 100 ==> levels_fault(levels) == Some(fault(ErrorKind::WarmthRange)),
        levels.warmth <= 100 && (levels.brightness < 10 || levels.brightness > 100)
            ==> levels_fault(levels) == Some(fault(ErrorKind::BrightnessRange)),
        ({
            let fits = schedule.transition_minutes <= 240;
            let lit = levels_fault(schedule.day) is None && levels_fault(schedule.night) is None;
            let located = schedule.timing == ScheduleTiming::Location;
            let north = !located || schedule.latitude.within_spec(POLE);
            let east = !located || schedule.longitude.within_spec(ANTIMERIDIAN);
            let sound = fits && lit && north && east;
            &&& !fits ==> schedule_fault(schedule) == Some(fault(ErrorKind::TransitionRange))
            &&& fits && levels_fault(schedule.day) is Some ==> schedule_fault(schedule)
                == levels_fault(schedule.day)
            &&& fits && levels_fault(schedule.day) is None && levels_fault(schedule.night) is Some
                ==> schedule_fault(schedule) == levels_fault(schedule.night)
            &&& fits && lit && !north ==> schedule_fault(schedule) == Some(
                fault(ErrorKind::LatitudeRange),
            )
            &&& fits && lit && north && !east ==> schedule_fault(schedule) == Some(
                fault(ErrorKind::LongitudeRange),
            )
            &&& sound ==> (time_of(schedule.night_start) matches Err(error) ==> schedule_fault(
                schedule,
            ) == Some(error))
            &&& sound && time_of(schedule.night_start) is Ok ==> (time_of(
                schedule.day_start,
            ) matches Err(error) ==> schedule_fault(schedule) == Some(error))
            &&& sound && time_of(schedule.night_start) is Ok && time_of(schedule.night_start)
                == time_of(schedule.day_start) ==> schedule_fault(schedule) == Some(
                fault(ErrorKind::SameStart),
            )
        }),
{
}

/// A result fails with its error and not otherwise.
pub proof fn results_fail_with_their_error(result: Result<(), Error>)
    ensures
        result is Ok ==> failure(result) is None,
        result matches Err(error) ==> failure(result) == Some(error@),
{
}

/// Presets are known by their names and with all that they hold, in their order.
pub proof fn presets_are_known_as_they_are(entries: Seq<Entry>, i: int)
    requires
        0 <= i < entries.len(),
    ensures
        entry_views(entries).len() == entries.len(),
        entry_views(entries)[i] == entries[i]@,
        names_of(entry_views(entries)).len() == entries.len(),
        names_of(entry_views(entries))[i] == entries[i]@.name,
{
}

}
