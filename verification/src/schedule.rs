//! Which levels a schedule calls for at a time of day.

use chrono::{DateTime, FixedOffset, TimeZone, Timelike};
use vstd::arithmetic::div_mod::lemma_fundamental_div_mod_converse;
use vstd::prelude::*;

use crate::binary64::{
    apart, difference, lemma_rounded_between, lemma_rounded_monotone, lemma_rounded_scaled,
    lemma_sixty_fourths, product, quotient, ratio, representable, rounded, rounding_stays_close,
    sixty_fourth, sum, unit, whole, wholes_are_nearest, Binary64,
};
use crate::config::{
    gap_between, levels_fault, neutral_levels, parse_time, schedule_fault, shortest_gap, time_of,
    times_lie_within_the_day, Levels, Schedule, ScheduleTiming, ScheduleView, Settings,
    SettingsView, MINUTES_PER_DAY,
};
use crate::coordinate::{ANTIMERIDIAN, POLE};
use crate::error::{fault, Error, ErrorKind, ErrorView};

verus! {

// ── times ────────────────────────────────────────────────────────────────────

/// A local time of day.
#[derive(Clone, Copy, Debug, PartialEq, Eq, Structural)]
pub struct LocalTime {
    pub hour: u8,
    pub minute: u8,
    pub second: u8,
}

impl LocalTime {
    /// Whether a clock can show the time.
    pub open spec fn valid(self) -> bool {
        self.hour < 24 && self.minute < 60 && self.second < 60
    }

    /// The minutes since midnight, without the seconds.
    pub open spec fn whole_minutes(self) -> int {
        self.hour * 60 + self.minute
    }

    /// The minutes since midnight, in units of [`unit`], as double-precision arithmetic has them.
    pub open spec fn minutes(self) -> int {
        sum(self.whole_minutes() * unit(), quotient(self.second * unit(), 60 * unit()))
    }
}

/// What the sun does at the place and on the day in question: the instants of civil dawn and dusk,
/// in seconds since 1970 UTC, where they occur; and the offset of local time, in seconds east.
#[derive(Clone, Copy, Debug, PartialEq, Eq)]
pub struct Sky {
    pub dawn: Option<i64>,
    pub dusk: Option<i64>,
    pub offset: i32,
}

/// The first and the last second that a calendar date can hold here.
pub open spec fn valid_instant(seconds: int) -> bool {
    -8_334_601_228_800 <= seconds <= 8_210_266_876_799
}

impl Sky {
    /// Whether the instants and the offset are such that a calendar can hold them.
    pub open spec fn valid(self) -> bool {
        &&& -86_400 < self.offset < 86_400
        &&& (self.dawn matches Some(seconds) ==> valid_instant(seconds as int))
        &&& (self.dusk matches Some(seconds) ==> valid_instant(seconds as int))
    }
}

/// The start minutes of day and night that are in effect, and how long the change takes.
#[derive(Clone, Copy, Debug, PartialEq, Eq, Structural)]
pub struct ResolvedTimes {
    pub day_start: u16,
    pub night_start: u16,
    pub transition_minutes: u16,
}

/// The minute of the local day in which an instant falls.
pub open spec fn local_minute(seconds: int, offset: int) -> int {
    (seconds + offset) % 86_400 / 60
}

/// The hour and the minute that a clock with a fixed offset from UTC shows at an instant.
///
/// This is `chrono`'s `TimeZone::from_utc_datetime` of a `FixedOffset`, with `hour` and `minute`
/// of its result. It claims that both are taken of the second of the local day, which is the
/// remainder of the offset instant by the length of a day.
#[verifier::external_body]
fn clock_at(seconds: i64, offset: i32) -> (clock: (u32, u32))
    requires
        valid_instant(seconds as int),
        -86_400 < offset < 86_400,
    ensures
        clock.0 == (seconds + offset) % 86_400 / 3600,
        clock.1 == (seconds + offset) % 86_400 / 60 % 60,
{
    let zone = FixedOffset::east_opt(offset).unwrap();
    let instant = DateTime::from_timestamp(seconds, 0).unwrap();
    let local = zone.from_utc_datetime(&instant.naive_utc());
    (local.hour(), local.minute())
}

/// The minute of the local day in which an instant falls.
pub fn utc_to_local_minute(seconds: i64, offset: i32) -> (minute: u16)
    requires
        valid_instant(seconds as int),
        -86_400 < offset < 86_400,
    ensures
        minute == local_minute(seconds as int, offset as int),
        minute < MINUTES_PER_DAY,
{
    let (hour, minute): (u32, u32) = clock_at(seconds, offset);
    (hour * 60 + minute) as u16
}

/// The times of civil dawn and dusk, or why there are none.
pub open spec fn twilight(schedule: ScheduleView, sky: Sky) -> Result<ResolvedTimes, ErrorView> {
    if !schedule.latitude.within_spec(POLE) || !schedule.longitude.within_spec(ANTIMERIDIAN) {
        Err(fault(ErrorKind::Coordinates))
    } else {
        match (sky.dawn, sky.dusk) {
            (None, _) => Err(fault(ErrorKind::NoDawn)),
            (_, None) => Err(fault(ErrorKind::NoDusk)),
            (Some(dawn), Some(dusk)) => {
                let day = local_minute(dawn as int, sky.offset as int);
                let night = local_minute(dusk as int, sky.offset as int);
                if day == night {
                    Err(fault(ErrorKind::DawnIsDusk))
                } else {
                    Ok(
                        ResolvedTimes {
                            day_start: day as u16,
                            night_start: night as u16,
                            transition_minutes: schedule.transition_minutes,
                        },
                    )
                }
            },
        }
    }
}

/// The times of civil dawn and dusk.
pub fn civil_twilight_minutes(schedule: &Schedule, sky: Sky) -> (times: Result<
    ResolvedTimes,
    Error,
>)
    requires
        sky.valid(),
    ensures
        match times {
            Ok(t) => twilight(schedule@, sky) == Ok::<ResolvedTimes, ErrorView>(t) && t.day_start
                < MINUTES_PER_DAY && t.night_start < MINUTES_PER_DAY,
            Err(error) => twilight(schedule@, sky) == Err::<ResolvedTimes, ErrorView>(error@),
        },
{
    if !schedule.latitude.within(POLE) || !schedule.longitude.within(ANTIMERIDIAN) {
        return Err(Error::new(ErrorKind::Coordinates));
    }
    let dawn: i64 = match sky.dawn {
        Some(seconds) => seconds,
        None => return Err(Error::new(ErrorKind::NoDawn)),
    };
    let dusk: i64 = match sky.dusk {
        Some(seconds) => seconds,
        None => return Err(Error::new(ErrorKind::NoDusk)),
    };
    let day_start: u16 = utc_to_local_minute(dawn, sky.offset);
    let night_start: u16 = utc_to_local_minute(dusk, sky.offset);
    if day_start == night_start {
        return Err(Error::new(ErrorKind::DawnIsDusk));
    }
    Ok(ResolvedTimes { day_start, night_start, transition_minutes: schedule.transition_minutes })
}

/// Times with a transition that fits between them.
pub open spec fn with_clamped_transition(times: ResolvedTimes, requested: u16) -> ResolvedTimes {
    let gap = shortest_gap(times.day_start as int, times.night_start as int);
    ResolvedTimes {
        transition_minutes: if requested < gap {
            requested
        } else {
            gap as u16
        },
        ..times
    }
}

/// Shortens a transition that does not fit between the times.
pub fn clamp_transition(times: ResolvedTimes, requested: u16) -> (clamped: ResolvedTimes)
    requires
        times.day_start < MINUTES_PER_DAY,
        times.night_start < MINUTES_PER_DAY,
    ensures
        clamped == with_clamped_transition(times, requested),
        clamped.transition_minutes <= requested,
        clamped.transition_minutes <= shortest_gap(
            clamped.day_start as int,
            clamped.night_start as int,
        ),
{
    let gap: u16 = gap_between(times.day_start, times.night_start);
    ResolvedTimes {
        day_start: times.day_start,
        night_start: times.night_start,
        transition_minutes: if requested < gap {
            requested
        } else {
            gap
        },
    }
}

/// The clock times of a schedule.
pub open spec fn clock_times(schedule: ScheduleView) -> Result<ResolvedTimes, ErrorView> {
    match (time_of(schedule.day_start), time_of(schedule.night_start)) {
        (Err(error), _) => Err(error),
        (_, Err(error)) => Err(error),
        (Ok(day), Ok(night)) => Ok(
            ResolvedTimes {
                day_start: day as u16,
                night_start: night as u16,
                transition_minutes: schedule.transition_minutes,
            },
        ),
    }
}

/// The times that a schedule goes by: the clock times, or dawn and dusk where they occur.
pub open spec fn resolved(schedule: ScheduleView, sky: Sky) -> Result<ResolvedTimes, ErrorView> {
    match schedule.timing {
        ScheduleTiming::Fixed => clock_times(schedule),
        ScheduleTiming::Location => match twilight(schedule, sky) {
            Ok(times) => Ok(with_clamped_transition(times, schedule.transition_minutes)),
            Err(_) => clock_times(schedule),
        },
    }
}

fn parse_clock_times(schedule: &Schedule) -> (times: Result<ResolvedTimes, Error>)
    ensures
        match times {
            Ok(t) => clock_times(schedule@) == Ok::<ResolvedTimes, ErrorView>(t) && t.day_start
                < MINUTES_PER_DAY && t.night_start < MINUTES_PER_DAY,
            Err(error) => clock_times(schedule@) == Err::<ResolvedTimes, ErrorView>(error@),
        },
{
    let day_start: u16 = match parse_time(schedule.day_start.as_str()) {
        Ok(minutes) => minutes,
        Err(error) => return Err(error),
    };
    let night_start: u16 = match parse_time(schedule.night_start.as_str()) {
        Ok(minutes) => minutes,
        Err(error) => return Err(error),
    };
    Ok(ResolvedTimes { day_start, night_start, transition_minutes: schedule.transition_minutes })
}

/// Finds the times that a schedule goes by today.
pub fn resolve_times(schedule: &Schedule, sky: Sky) -> (times: Result<ResolvedTimes, Error>)
    requires
        sky.valid(),
    ensures
        match times {
            Ok(t) => resolved(schedule@, sky) == Ok::<ResolvedTimes, ErrorView>(t) && t.day_start
                < MINUTES_PER_DAY && t.night_start < MINUTES_PER_DAY,
            Err(error) => resolved(schedule@, sky) == Err::<ResolvedTimes, ErrorView>(error@),
        },
{
    match schedule.timing {
        ScheduleTiming::Fixed => parse_clock_times(schedule),
        ScheduleTiming::Location => match civil_twilight_minutes(schedule, sky) {
            Ok(times) => Ok(clamp_transition(times, schedule.transition_minutes)),
            Err(_) => parse_clock_times(schedule),
        },
    }
}

// ── progress ─────────────────────────────────────────────────────────────────

/// The units in a day of minutes.
pub open spec fn day_length() -> int {
    1440 * unit()
}

/// How far ahead of `from` the clock is at `to`, going forward round the day.
pub open spec fn forward(from: int, to: int) -> int {
    if to >= from {
        difference(to, from) % day_length()
    } else {
        let back = difference(from, to) % day_length();
        if back == 0 {
            0
        } else {
            difference(day_length(), back)
        }
    }
}

/// How much of a transition is over: from zero to one.
pub open spec fn progress(now: int, start: int, duration: int) -> int {
    if duration == 0 {
        unit()
    } else {
        let share = quotient(forward(start, now), duration * unit());
        if share < unit() {
            share
        } else {
            unit()
        }
    }
}

/// The percentage between two percentages.
pub open spec fn blend(from: int, to: int, share: int) -> int {
    if to >= from {
        whole(sum(from * unit(), product(share, (to - from) * unit())))
    } else {
        whole(difference(from * unit(), product(share, (from - to) * unit())))
    }
}

/// The levels between two pairs of levels.
pub open spec fn blended(from: Levels, to: Levels, share: int) -> Levels {
    Levels {
        warmth: blend(from.warmth as int, to.warmth as int, share) as u8,
        brightness: blend(from.brightness as int, to.brightness as int, share) as u8,
    }
}

/// The levels that a schedule calls for at a minute, given the times it goes by.
pub open spec fn levels_at(schedule: ScheduleView, times: ResolvedTimes, now: int) -> Levels {
    let day = times.day_start * unit();
    let night = times.night_start * unit();
    let morning = progress(now, day, times.transition_minutes as int);
    let evening = progress(now, night, times.transition_minutes as int);
    if morning < unit() {
        blended(schedule.night, schedule.day, morning)
    } else if forward(day, now) < forward(day, night) {
        schedule.day
    } else if evening < unit() {
        blended(schedule.day, schedule.night, evening)
    } else {
        schedule.night
    }
}

proof fn lemma_wholes(k: int)
    requires
        0 <= k <= 0x1_0000_0000,
    ensures
        representable(k * unit()),
        unit() == 64 * sixty_fourth(),
{
    lemma_sixty_fourths(k * 64);
    assert(k * 64 * sixty_fourth() == k * unit());
}

proof fn lemma_seconds(second: int)
    requires
        0 <= second < 60,
    ensures
        0 <= quotient(second * unit(), 60 * unit()) <= 63 * sixty_fourth(),
        second == 0 ==> quotient(second * unit(), 60 * unit()) == 0,
{
    lemma_sixty_fourths(0);
    lemma_sixty_fourths(63);
    let n = second * unit() * unit();
    let d = 60 * unit();
    assert(n <= 63 * sixty_fourth() * d) by (nonlinear_arith)
        requires
            n == second * unit() * unit(),
            d == 60 * unit(),
            0 <= second <= 59,
            unit() == 64 * sixty_fourth(),
            sixty_fourth() > 0,
    ;
    assert(0 <= n) by (nonlinear_arith)
        requires
            n == second * unit() * unit(),
            0 <= second,
    ;
    lemma_rounded_between(n, d, 0, 63 * sixty_fourth());
    if second == 0 {
        lemma_rounded_between(0, d, 0, 0);
    }
}

/// The minutes since midnight lie within the minute that the clock shows.
proof fn lemma_minutes(now: LocalTime)
    requires
        now.valid(),
    ensures
        now.whole_minutes() * unit() <= now.minutes() <= now.whole_minutes() * unit() + 63
            * sixty_fourth(),
        now.second == 0 ==> now.minutes() == now.whole_minutes() * unit(),
{
    let k = now.whole_minutes();
    lemma_seconds(now.second as int);
    lemma_wholes(k);
    lemma_sixty_fourths(64 * k + 63);
    let f = quotient(now.second * unit(), 60 * unit());
    lemma_rounded_between(
        k * unit() + f,
        1,
        k * unit(),
        (64 * k + 63) * sixty_fourth(),
    );
    if now.second == 0 {
        lemma_rounded_between(k * unit() + f, 1, k * unit(), k * unit());
    }
}

fn minute_units(now: LocalTime) -> (n: u128)
    requires
        now.valid(),
    ensures
        n == now.minutes(),
        n < day_length(),
{
    proof {
        lemma_seconds(now.second as int);
        lemma_minutes(now);
    }
    let minutes: Binary64 = Binary64::from_count(now.hour as u32 * 60 + now.minute as u32);
    minutes.plus(&ratio(now.second as u32, 60)).units()
}

proof fn lemma_difference(a: int, b: int)
    requires
        0 <= b <= a <= 65536 * unit(),
    ensures
        0 <= difference(a, b) <= 65536 * unit(),
{
    lemma_wholes(0);
    lemma_wholes(65536);
    lemma_rounded_between(a - b, 1, 0, 65536 * unit());
}

/// How far ahead of `from` the clock is at `to`, going forward round the day.
fn forward_distance(from: u128, to: u128) -> (n: u128)
    requires
        from <= 65536 * unit(),
        to <= 65536 * unit(),
    ensures
        n == forward(from as int, to as int),
        n <= day_length(),
{
    let day: u128 = 1440 * 0x40_0000_0000_0000_0000_0000;
    proof {
        lemma_wholes(0);
        lemma_wholes(1440);
    }
    if to >= from {
        proof {
            lemma_difference(to as int, from as int);
        }
        Binary64::from_ratio(to - from, 1).units() % day
    } else {
        proof {
            lemma_difference(from as int, to as int);
        }
        let back: u128 = Binary64::from_ratio(from - to, 1).units() % day;
        if back == 0 {
            0
        } else {
            proof {
                lemma_rounded_between(day - back, 1, 0, day as int);
            }
            Binary64::from_ratio(day - back, 1).units()
        }
    }
}

/// How much of a transition is over.
fn transition_progress(now: u128, start: u128, duration: u16) -> (share: Binary64)
    requires
        now <= 65536 * unit(),
        start <= 65536 * unit(),
    ensures
        share@ == progress(now as int, start as int, duration as int),
        0 <= share@ <= unit(),
{
    let one: u128 = 0x40_0000_0000_0000_0000_0000;
    if duration == 0 {
        return Binary64::from_count(1);
    }
    let ahead: u128 = forward_distance(start, now);
    proof {
        lemma_rounded_scaled(ahead as int, duration as int, unit());
        lemma_wholes(0);
        lemma_wholes(1440);
        assert(ahead <= day_length() * duration) by (nonlinear_arith)
            requires
                ahead <= day_length(),
                duration >= 1,
                day_length() > 0,
        ;
        lemma_rounded_between(ahead as int, duration as int, 0, day_length());
    }
    let share: Binary64 = Binary64::from_ratio(ahead, duration as u128);
    if share.units() < one {
        share
    } else {
        Binary64::from_count(1)
    }
}

proof fn lemma_share(share: int, span: int)
    requires
        0 <= share <= unit(),
        0 <= span <= 255,
    ensures
        0 <= product(share, span * unit()) <= span * unit(),
        share == 0 ==> product(share, span * unit()) == 0,
{
    lemma_wholes(0);
    lemma_wholes(span);
    assert(0 <= share * (span * unit()) <= span * unit() * unit()) by (nonlinear_arith)
        requires
            0 <= share <= unit(),
            0 <= span,
    ;
    lemma_rounded_between(share * (span * unit()), unit(), 0, span * unit());
    if share == 0 {
        lemma_rounded_between(0, unit(), 0, 0);
    }
}

proof fn lemma_whole_bounds(x: int, low: int, high: int)
    requires
        low * unit() <= x <= high * unit(),
    ensures
        low <= whole(x) <= high,
{
    let u = unit();
    let n = 2 * x + u;
    let d = 2 * u;
    vstd::arithmetic::div_mod::lemma_fundamental_div_mod(n, d);
    let q = n / d;
    let r = n % d;
    assert(low <= q <= high) by (nonlinear_arith)
        requires
            n == d * q + r,
            0 <= r < d,
            d == 2 * u,
            n == 2 * x + u,
            low * u <= x <= high * u,
            u > 0,
    ;
}

/// What is blended lies between what it is blended of.
proof fn lemma_blend_between(from: int, to: int, share: int)
    requires
        0 <= from <= 255,
        0 <= to <= 255,
        0 <= share <= unit(),
    ensures
        from <= to ==> from <= blend(from, to, share) <= to,
        to <= from ==> to <= blend(from, to, share) <= from,
        share == 0 ==> blend(from, to, share) == from,
{
    lemma_wholes(from);
    lemma_wholes(to);
    if to >= from {
        let p = product(share, (to - from) * unit());
        lemma_share(share, to - from);
        lemma_rounded_between(from * unit() + p, 1, from * unit(), to * unit());
        lemma_whole_bounds(sum(from * unit(), p), from, to);
        if share == 0 {
            lemma_whole_bounds(sum(from * unit(), p), from, from);
        }
    } else {
        let p = product(share, (from - to) * unit());
        lemma_share(share, from - to);
        lemma_rounded_between(from * unit() - p, 1, to * unit(), from * unit());
        lemma_whole_bounds(difference(from * unit(), p), to, from);
        if share == 0 {
            lemma_whole_bounds(difference(from * unit(), p), from, from);
        }
    }
}

/// The percentage between two percentages.
fn lerp(from: u8, to: u8, share: &Binary64) -> (value: u8)
    requires
        0 <= share@ <= unit(),
    ensures
        value == blend(from as int, to as int, share@),
        from <= to ==> from <= value <= to,
        to <= from ==> to <= value <= from,
{
    proof {
        lemma_blend_between(from as int, to as int, share@);
        lemma_wholes(from as int);
        lemma_wholes(to as int);
    }
    let base: Binary64 = Binary64::from_count(from as u32);
    if to >= from {
        proof {
            lemma_share(share@, to - from);
            assert(share@ * (to - from) <= unit() * 255) by (nonlinear_arith)
                requires
                    0 <= share@ <= unit(),
                    0 <= to - from <= 255,
            ;
            lemma_rounded_between(
                from * unit() + product(share@, (to - from) * unit()),
                1,
                from * unit(),
                to * unit(),
            );
        }
        base.plus(&share.times_count((to - from) as u32)).to_whole() as u8
    } else {
        proof {
            lemma_share(share@, from - to);
            assert(share@ * (from - to) <= unit() * 255) by (nonlinear_arith)
                requires
                    0 <= share@ <= unit(),
                    0 <= from - to <= 255,
            ;
            lemma_rounded_between(
                from * unit() - product(share@, (from - to) * unit()),
                1,
                to * unit(),
                from * unit(),
            );
        }
        base.minus(&share.times_count((from - to) as u32)).to_whole() as u8
    }
}

/// The levels between two pairs of levels.
fn interpolate(from: Levels, to: Levels, share: &Binary64) -> (levels: Levels)
    requires
        0 <= share@ <= unit(),
    ensures
        levels == blended(from, to, share@),
{
    Levels {
        warmth: lerp(from.warmth, to.warmth, share),
        brightness: lerp(from.brightness, to.brightness, share),
    }
}

// ── levels ───────────────────────────────────────────────────────────────────

/// The levels that a schedule calls for, given the times it goes by.
pub fn scheduled_levels_with_times(
    schedule: &Schedule,
    times: ResolvedTimes,
    now: LocalTime,
) -> (levels: Levels)
    requires
        now.valid(),
    ensures
        levels == levels_at(schedule@, times, now.minutes()),
{
    let one: u128 = 0x40_0000_0000_0000_0000_0000;
    let minute: u128 = minute_units(now);
    let day: u128 = times.day_start as u128 * one;
    let night: u128 = times.night_start as u128 * one;
    let morning: Binary64 = transition_progress(minute, day, times.transition_minutes);
    if morning.units() < one {
        return interpolate(schedule.night, schedule.day, &morning);
    }
    if forward_distance(day, minute) < forward_distance(day, night) {
        return schedule.day;
    }
    let evening: Binary64 = transition_progress(minute, night, times.transition_minutes);
    if evening.units() < one {
        return interpolate(schedule.day, schedule.night, &evening);
    }
    schedule.night
}

/// The levels that a schedule calls for by its clock times.
pub fn scheduled_levels(schedule: &Schedule, now: LocalTime) -> (levels: Result<Levels, Error>)
    requires
        now.valid(),
    ensures
        match levels {
            Ok(l) => clock_times(schedule@) matches Ok(times) && l == levels_at(
                schedule@,
                times,
                now.minutes(),
            ),
            Err(error) => clock_times(schedule@) == Err::<ResolvedTimes, ErrorView>(error@),
        },
{
    match parse_clock_times(schedule) {
        Ok(times) => Ok(scheduled_levels_with_times(schedule, times, now)),
        Err(error) => Err(error),
    }
}

/// The levels that settings call for at a time of day.
pub open spec fn levels_now(settings: SettingsView, now: LocalTime, sky: Sky) -> Result<
    Levels,
    ErrorView,
> {
    if !settings.enabled {
        Ok(neutral_levels())
    } else if !settings.automatic {
        Ok(settings.manual)
    } else {
        match resolved(settings.schedule, sky) {
            Ok(times) => Ok(levels_at(settings.schedule, times, now.minutes())),
            Err(error) => Err(error),
        }
    }
}

/// The levels that settings call for at a time of day.
pub fn current_levels(settings: &Settings, now: LocalTime, sky: Sky) -> (levels: Result<
    Levels,
    Error,
>)
    requires
        now.valid(),
        sky.valid(),
    ensures
        match levels {
            Ok(l) => levels_now(settings@, now, sky) == Ok::<Levels, ErrorView>(l),
            Err(error) => levels_now(settings@, now, sky) == Err::<Levels, ErrorView>(error@),
        },
{
    if !settings.enabled {
        return Ok(Levels::neutral());
    }
    if !settings.automatic {
        return Ok(settings.manual);
    }
    match resolve_times(&settings.schedule, sky) {
        Ok(times) => Ok(scheduled_levels_with_times(&settings.schedule, times, now)),
        Err(error) => Err(error),
    }
}


// ── what holds of every schedule ─────────────────────────────────────────────

/// How many minutes after `start` the clock shows `minute`, going forward round the day.
pub open spec fn minutes_since(start: int, minute: int) -> int {
    (minute - start) % 1440
}

proof fn lemma_less_than_a_day(x: int)
    requires
        0 <= x < day_length(),
    ensures
        x % day_length() == x,
{
    vstd::arithmetic::div_mod::lemma_small_mod(x as nat, day_length() as nat);
}

/// A time within a minute is as far ahead of a start as the minute is, and by less than a minute
/// more.
proof fn lemma_forward(start: int, minute: int, now: int, extra: int)
    requires
        0 <= start < 1440,
        0 <= minute < 1440,
        0 <= extra < 64,
        minute * unit() <= now <= minute * unit() + extra * sixty_fourth(),
    ensures
        minutes_since(start, minute) * unit() <= forward(start * unit(), now),
        forward(start * unit(), now) <= minutes_since(start, minute) * unit() + extra
            * sixty_fourth(),
{
    let k = minutes_since(start, minute);
    lemma_wholes(k);
    lemma_sixty_fourths(64 * k + extra);
    if minute >= start {
        assert(k == minute - start);
        lemma_rounded_between(
            now - start * unit(),
            1,
            k * unit(),
            (64 * k + extra) * sixty_fourth(),
        );
        lemma_less_than_a_day(difference(now, start * unit()));
    } else {
        assert(k == minute - start + 1440);
        let apart = start - minute;
        lemma_wholes(apart);
        lemma_sixty_fourths(64 * apart - extra);
        lemma_rounded_between(
            start * unit() - now,
            1,
            (64 * apart - extra) * sixty_fourth(),
            apart * unit(),
        );
        let back = difference(start * unit(), now);
        lemma_less_than_a_day(back);
        lemma_rounded_between(
            day_length() - back,
            1,
            k * unit(),
            (64 * k + extra) * sixty_fourth(),
        );
    }
}

/// A transition is over exactly when its minutes are.
proof fn lemma_progress(start: int, now: LocalTime, duration: u16)
    requires
        0 <= start < 1440,
        now.valid(),
    ensures
        0 <= progress(now.minutes(), start * unit(), duration as int) <= unit(),
        progress(now.minutes(), start * unit(), duration as int) < unit() <==> minutes_since(
            start,
            now.whole_minutes(),
        ) < duration,
        now.second == 0 && minutes_since(start, now.whole_minutes()) == 0 && duration > 0
            ==> progress(now.minutes(), start * unit(), duration as int) == 0,
{
    let k = minutes_since(start, now.whole_minutes());
    lemma_minutes(now);
    lemma_forward(start, now.whole_minutes(), now.minutes(), 63);
    let ahead = forward(start * unit(), now.minutes());
    if duration > 0 {
        lemma_rounded_scaled(ahead, duration as int, unit());
        lemma_wholes(0);
        lemma_wholes(1);
        lemma_wholes(1440);
        assert(ahead <= day_length() * duration) by (nonlinear_arith)
            requires
                ahead <= day_length(),
                duration >= 1,
                day_length() > 0,
        ;
        lemma_rounded_between(ahead, duration as int, 0, day_length());
        if k >= duration {
            lemma_rounded_between(ahead, duration as int, unit(), day_length());
        } else {
            // The largest share with 22 bits, which no unfinished transition exceeds.
            let most = 0x3F_FFFFint * 0x1_0000_0000_0000_0000int;
            vstd::arithmetic::power2::lemma2_to64();
            crate::binary64::lemma_rounded_exact(0x3F_FFFF, 64);
            lemma_rounded_between(ahead, duration as int, 0, most);
            if now.second == 0 && k == 0 {
                lemma_forward(start, now.whole_minutes(), now.minutes(), 0);
                lemma_rounded_between(0, duration as int, 0, 0);
            }
        }
    }
}

/// Which of four states a schedule is in depends on the minute that the clock shows: the morning
/// transition runs from the start of the day, the evening transition from the start of the night,
/// each for its minutes; the levels of the day hold until the night starts, and those of the night
/// for the rest.
pub proof fn schedule_follows_the_clock(
    schedule: ScheduleView,
    times: ResolvedTimes,
    now: LocalTime,
)
    requires
        now.valid(),
        times.day_start < MINUTES_PER_DAY,
        times.night_start < MINUTES_PER_DAY,
    ensures
        levels_at(schedule, times, now.minutes()) == ({
            let minute = now.whole_minutes();
            let duration = times.transition_minutes as int;
            if minutes_since(times.day_start as int, minute) < duration {
                blended(
                    schedule.night,
                    schedule.day,
                    progress(now.minutes(), times.day_start * unit(), duration),
                )
            } else if minutes_since(times.day_start as int, minute) < minutes_since(
                times.day_start as int,
                times.night_start as int,
            ) {
                schedule.day
            } else if minutes_since(times.night_start as int, minute) < duration {
                blended(
                    schedule.day,
                    schedule.night,
                    progress(now.minutes(), times.night_start * unit(), duration),
                )
            } else {
                schedule.night
            }
        }),
{
    let day = times.day_start as int;
    let night = times.night_start as int;
    lemma_progress(day, now, times.transition_minutes);
    lemma_progress(night, now, times.transition_minutes);
    lemma_minutes(now);
    lemma_forward(day, now.whole_minutes(), now.minutes(), 63);
    lemma_forward(day, night, night * unit(), 0);
}

/// A transition starts at the levels that it leaves.
pub proof fn transitions_start_where_they_leave(
    schedule: ScheduleView,
    times: ResolvedTimes,
    now: LocalTime,
)
    requires
        now.valid(),
        now.second == 0,
        times.day_start < MINUTES_PER_DAY,
        times.night_start < MINUTES_PER_DAY,
        0 < times.transition_minutes <= shortest_gap(
            times.day_start as int,
            times.night_start as int,
        ),
    ensures
        now.whole_minutes() == times.day_start ==> levels_at(schedule, times, now.minutes())
            == schedule.night,
        now.whole_minutes() == times.night_start ==> levels_at(schedule, times, now.minutes())
            == schedule.day,
{
    schedule_follows_the_clock(schedule, times, now);
    let day = schedule.day;
    let night = schedule.night;
    if now.whole_minutes() == times.day_start {
        lemma_progress(times.day_start as int, now, times.transition_minutes);
        lemma_blend_between(night.warmth as int, day.warmth as int, 0);
        lemma_blend_between(night.brightness as int, day.brightness as int, 0);
    } else if now.whole_minutes() == times.night_start {
        lemma_progress(times.night_start as int, now, times.transition_minutes);
        lemma_blend_between(day.warmth as int, night.warmth as int, 0);
        lemma_blend_between(day.brightness as int, night.brightness as int, 0);
    }
}

/// Whether a number lies between two others.
pub open spec fn between(x: int, a: int, b: int) -> bool {
    a <= x <= b || b <= x <= a
}

/// A schedule never leaves the range between its day and its night.
pub proof fn schedule_stays_between_day_and_night(
    schedule: ScheduleView,
    times: ResolvedTimes,
    now: LocalTime,
)
    requires
        now.valid(),
        times.day_start < MINUTES_PER_DAY,
        times.night_start < MINUTES_PER_DAY,
    ensures
        ({
            let levels = levels_at(schedule, times, now.minutes());
            &&& between(
                levels.warmth as int,
                schedule.day.warmth as int,
                schedule.night.warmth as int,
            )
            &&& between(
                levels.brightness as int,
                schedule.day.brightness as int,
                schedule.night.brightness as int,
            )
        }),
{
    schedule_follows_the_clock(schedule, times, now);
    lemma_progress(times.day_start as int, now, times.transition_minutes);
    lemma_progress(times.night_start as int, now, times.transition_minutes);
    let day = schedule.day;
    let night = schedule.night;
    let duration = times.transition_minutes as int;
    let morning = progress(now.minutes(), times.day_start * unit(), duration);
    let evening = progress(now.minutes(), times.night_start * unit(), duration);
    lemma_blend_between(night.warmth as int, day.warmth as int, morning);
    lemma_blend_between(night.brightness as int, day.brightness as int, morning);
    lemma_blend_between(day.warmth as int, night.warmth as int, evening);
    lemma_blend_between(day.brightness as int, night.brightness as int, evening);
}

/// A whole minute is a whole number of minutes ahead of a start, however many days it lies before
/// or behind.
proof fn lemma_forward_wholes(start: int, minute: int)
    requires
        0 <= start < 1440,
        -0x8000_0000 <= minute <= 0x8000_0000,
    ensures
        forward(start * unit(), minute * unit()) == minutes_since(start, minute) * unit(),
{
    let k = minutes_since(start, minute);
    let apart = if minute >= start {
        minute - start
    } else {
        start - minute
    };
    lemma_wholes(apart);
    lemma_rounded_between(apart * unit(), 1, apart * unit(), apart * unit());
    let days = apart / 1440;
    let rest = apart % 1440;
    let one = unit();
    assert(apart * one == days * (1440 * one) + rest * one) by (nonlinear_arith)
        requires
            apart == days * 1440 + rest,
    ;
    lemma_fundamental_div_mod_converse(apart * unit(), day_length(), days, rest * unit());
    if minute >= start {
        assert(minute * unit() - start * unit() == apart * unit());
    } else {
        assert(start * unit() - minute * unit() == apart * unit());
        if rest == 0 {
            assert((minute - start) % 1440 == 0);
        } else {
            assert((minute - start) % 1440 == 1440 - rest);
            lemma_wholes(k);
            lemma_rounded_between(k * unit(), 1, k * unit(), k * unit());
            assert(day_length() - rest * unit() == k * unit());
        }
    }
}

proof fn lemma_minutes_since_repeats(start: int, minute: int)
    ensures
        minutes_since(start, minute + 1440) == minutes_since(start, minute),
        minutes_since(start, minute % 1440) == minutes_since(start, minute),
{
}

/// Two times that are as far ahead of both starts get the same levels.
proof fn lemma_levels_by_distance(schedule: ScheduleView, times: ResolvedTimes, a: int, b: int)
    requires
        forward(times.day_start * unit(), a) == forward(times.day_start * unit(), b),
        forward(times.night_start * unit(), a) == forward(times.night_start * unit(), b),
    ensures
        levels_at(schedule, times, a) == levels_at(schedule, times, b),
{
}

proof fn lemma_same_minute(schedule: ScheduleView, times: ResolvedTimes, a: int, b: int)
    requires
        -0x8000_0000 <= a <= 0x8000_0000,
        -0x8000_0000 <= b <= 0x8000_0000,
        times.day_start < MINUTES_PER_DAY,
        times.night_start < MINUTES_PER_DAY,
        b == a + 1440 || b == a % 1440,
    ensures
        levels_at(schedule, times, a * unit()) == levels_at(schedule, times, b * unit()),
{
    let day = times.day_start as int;
    let night = times.night_start as int;
    lemma_forward_wholes(day, a);
    lemma_forward_wholes(day, b);
    lemma_forward_wholes(night, a);
    lemma_forward_wholes(night, b);
    lemma_minutes_since_repeats(day, a);
    lemma_minutes_since_repeats(night, a);
    lemma_levels_by_distance(schedule, times, a * unit(), b * unit());
}

/// Days are alike: at a whole minute, a schedule calls for the levels of the same minute on every
/// other day, such as the day after. They stay in the range between its day and its night.
pub proof fn days_are_alike(schedule: ScheduleView, times: ResolvedTimes, minute: int)
    requires
        -0x7FFF_FFFF <= minute <= 0x7FFF_FFFF - 1440,
        times.day_start < MINUTES_PER_DAY,
        times.night_start < MINUTES_PER_DAY,
    ensures
        ({
            let levels = levels_at(schedule, times, minute * unit());
            &&& levels_at(schedule, times, minute * unit() + day_length()) == levels
            &&& levels_at(schedule, times, (minute % 1440) * unit()) == levels
            &&& between(
                levels.warmth as int,
                schedule.day.warmth as int,
                schedule.night.warmth as int,
            )
            &&& between(
                levels.brightness as int,
                schedule.day.brightness as int,
                schedule.night.brightness as int,
            )
        }),
{
    let of_day = minute % 1440;
    lemma_same_minute(schedule, times, minute, minute + 1440);
    lemma_same_minute(schedule, times, minute, of_day);
    assert((minute + 1440) * unit() == minute * unit() + day_length());
    let now = LocalTime { hour: (of_day / 60) as u8, minute: (of_day % 60) as u8, second: 0 };
    assert(now.whole_minutes() == of_day);
    lemma_minutes(now);
    schedule_stays_between_day_and_night(schedule, times, now);
}

/// A schedule whose clock times are valid has times to go by, whatever the sun does, and they lie
/// within the day.
pub proof fn valid_schedules_resolve(schedule: ScheduleView, sky: Sky)
    requires
        schedule_fault(schedule) is None,
        sky.valid(),
    ensures
        resolved(schedule, sky) matches Ok(times) && times.day_start < MINUTES_PER_DAY
            && times.night_start < MINUTES_PER_DAY && times.day_start != times.night_start
            && times.transition_minutes <= shortest_gap(
            times.day_start as int,
            times.night_start as int,
        ) && times.transition_minutes <= schedule.transition_minutes,
{
    times_lie_within_the_day(schedule.day_start);
    times_lie_within_the_day(schedule.night_start);
    lemma_shortest_gap_symmetric(
        time_of(schedule.day_start)->Ok_0,
        time_of(schedule.night_start)->Ok_0,
    );
}

proof fn lemma_shortest_gap_symmetric(a: int, b: int)
    ensures
        shortest_gap(a, b) == shortest_gap(b, a),
{
}

/// A filter that is off leaves the display neutral, and one in manual mode holds its levels, at every
/// time of day and whatever the schedule.
pub proof fn schedules_rest_unless_they_run(settings: SettingsView, now: LocalTime, sky: Sky)
    ensures
        !settings.enabled ==> levels_now(settings, now, sky) == Ok::<Levels, ErrorView>(
            neutral_levels(),
        ),
        settings.enabled && !settings.automatic ==> levels_now(settings, now, sky) == Ok::<
            Levels,
            ErrorView,
        >(settings.manual),
{
}

/// Valid settings call for valid levels at every time of day.
pub proof fn valid_settings_give_valid_levels(settings: SettingsView, now: LocalTime, sky: Sky)
    requires
        crate::config::settings_fault(settings) is None,
        now.valid(),
        sky.valid(),
    ensures
        levels_now(settings, now, sky) matches Ok(levels) && levels_fault(levels) is None,
{
    if settings.enabled && settings.automatic {
        valid_schedules_resolve(settings.schedule, sky);
        let times = resolved(settings.schedule, sky)->Ok_0;
        schedule_stays_between_day_and_night(settings.schedule, times, now);
    }
}

/// The seconds from the start minute to a time of day, going forward round the day.
pub open spec fn seconds_since(start: int, now: LocalTime) -> int {
    (now.whole_minutes() * 60 + now.second - start * 60) % 86_400
}

proof fn lemma_seconds_since(start: int, now: LocalTime)
    requires
        0 <= start < 1440,
        now.valid(),
    ensures
        seconds_since(start, now) == now.whole_minutes() * 60 + now.second - start * 60 + if now.whole_minutes()
            >= start {
            0int
        } else {
            86_400
        },
        minutes_since(start, now.whole_minutes()) == now.whole_minutes() - start + if now.whole_minutes()
            >= start {
            0int
        } else {
            1440
        },
{
}

proof fn lemma_minutes_monotone(a: LocalTime, b: LocalTime)
    requires
        a.valid(),
        b.valid(),
        a.whole_minutes() * 60 + a.second <= b.whole_minutes() * 60 + b.second,
    ensures
        a.minutes() <= b.minutes(),
{
    lemma_minutes(a);
    lemma_minutes(b);
    if a.whole_minutes() == b.whole_minutes() {
        let d = 60 * unit();
        assert(0 <= a.second * unit() * unit() <= b.second * unit() * unit()) by (nonlinear_arith)
            requires
                0 <= a.second <= b.second,
        ;
        lemma_rounded_monotone(a.second * unit() * unit(), b.second * unit() * unit(), d);
        lemma_seconds(a.second as int);
        let m = a.whole_minutes() * unit();
        lemma_rounded_monotone(
            m + quotient(a.second * unit(), d),
            m + quotient(b.second * unit(), d),
            1,
        );
    }
}

proof fn lemma_forward_monotone(start: int, a: LocalTime, b: LocalTime)
    requires
        0 <= start < 1440,
        a.valid(),
        b.valid(),
        seconds_since(start, a) <= seconds_since(start, b),
    ensures
        0 <= forward(start * unit(), a.minutes()) <= forward(start * unit(), b.minutes()),
{
    lemma_minutes(a);
    lemma_minutes(b);
    lemma_forward(start, a.whole_minutes(), a.minutes(), 63);
    lemma_forward(start, b.whole_minutes(), b.minutes(), 63);
    let s = start * unit();
    lemma_seconds_since(start, a);
    lemma_seconds_since(start, b);
    if a.whole_minutes() >= start && b.whole_minutes() >= start {
        lemma_minutes_monotone(a, b);
        lemma_difference(a.minutes(), s);
        lemma_difference(b.minutes(), s);
        lemma_rounded_monotone(a.minutes() - s, b.minutes() - s, 1);
        lemma_within_day(a.minutes() - s, a.whole_minutes() - start);
        lemma_within_day(b.minutes() - s, b.whole_minutes() - start);
        lemma_less_than_a_day(difference(a.minutes(), s));
        lemma_less_than_a_day(difference(b.minutes(), s));
    } else if a.whole_minutes() < start && b.whole_minutes() < start {
        lemma_minutes_monotone(a, b);
        lemma_rounded_monotone(s - b.minutes(), s - a.minutes(), 1);
        let near = difference(s, b.minutes());
        let far = difference(s, a.minutes());
        lemma_wholes(1);
        lemma_wholes(start);
        lemma_sixty_fourths(1);
        lemma_rounded_between(s - b.minutes(), 1, sixty_fourth(), s);
        lemma_rounded_between(s - a.minutes(), 1, sixty_fourth(), s);
        lemma_less_than_a_day(near);
        lemma_less_than_a_day(far);
        lemma_rounded_monotone(day_length() - far, day_length() - near, 1);
    }
}

proof fn lemma_within_day(n: int, k: int)
    requires
        0 <= k < 1440,
        k * unit() <= n <= k * unit() + 63 * sixty_fourth(),
    ensures
        0 <= rounded(n, 1) < day_length(),
{
    lemma_wholes(k);
    lemma_sixty_fourths(64 * k + 63);
    lemma_rounded_between(n, 1, k * unit(), (64 * k + 63) * sixty_fourth());
}

proof fn lemma_blend_monotone(from: int, to: int, a: int, b: int)
    requires
        0 <= from <= 255,
        0 <= to <= 255,
        0 <= a <= b <= unit(),
    ensures
        between(blend(from, to, b), blend(from, to, a), to),
{
    lemma_blend_between(from, to, a);
    lemma_blend_between(from, to, b);
    lemma_wholes(from);
    let span = if to >= from {
        to - from
    } else {
        from - to
    };
    lemma_share(a, span);
    lemma_share(b, span);
    let u = span * unit();
    assert(0 <= a * u <= b * u) by (nonlinear_arith)
        requires
            0 <= a <= b,
            0 <= u,
    ;
    lemma_rounded_monotone(a * u, b * u, unit());
    let p = product(a, u);
    let q = product(b, u);
    if to >= from {
        lemma_rounded_monotone(from * unit() + p, from * unit() + q, 1);
        lemma_whole_monotone(sum(from * unit(), p), sum(from * unit(), q));
    } else {
        lemma_rounded_monotone(from * unit() - q, from * unit() - p, 1);
        lemma_whole_monotone(difference(from * unit(), q), difference(from * unit(), p));
    }
}

proof fn lemma_whole_monotone(x: int, y: int)
    requires
        x <= y,
    ensures
        whole(x) <= whole(y),
{
    vstd::arithmetic::div_mod::lemma_div_is_ordered(2 * x + unit(), 2 * y + unit(), 2 * unit());
}

/// A transition moves one way: at a later time the levels lie between those of an earlier time and
/// the ones it leads to.
pub proof fn transitions_move_toward_their_target(
    from: Levels,
    to: Levels,
    start: int,
    duration: u16,
    earlier: LocalTime,
    later: LocalTime,
)
    requires
        0 <= start < 1440,
        earlier.valid(),
        later.valid(),
        seconds_since(start, earlier) <= seconds_since(start, later),
    ensures
        ({
            let a = blended(from, to, progress(earlier.minutes(), start * unit(), duration as int));
            let b = blended(from, to, progress(later.minutes(), start * unit(), duration as int));
            &&& between(b.warmth as int, a.warmth as int, to.warmth as int)
            &&& between(b.brightness as int, a.brightness as int, to.brightness as int)
        }),
{
    let a = progress(earlier.minutes(), start * unit(), duration as int);
    let b = progress(later.minutes(), start * unit(), duration as int);
    lemma_progress(start, earlier, duration);
    lemma_progress(start, later, duration);
    lemma_forward_monotone(start, earlier, later);
    if duration > 0 {
        let x = forward(start * unit(), earlier.minutes());
        let y = forward(start * unit(), later.minutes());
        lemma_rounded_monotone(x * unit(), y * unit(), duration * unit());
    }
    assert(a <= b);
    lemma_blend_monotone(from.warmth as int, to.warmth as int, a, b);
    lemma_blend_monotone(from.brightness as int, to.brightness as int, a, b);
    lemma_blend_between(from.warmth as int, to.warmth as int, a);
    lemma_blend_between(from.brightness as int, to.brightness as int, a);
    lemma_blend_between(from.warmth as int, to.warmth as int, b);
    lemma_blend_between(from.brightness as int, to.brightness as int, b);
}

// ── how levels fade ──────────────────────────────────────────────────────────

/// The seconds since midnight.
pub open spec fn second_of_day(now: LocalTime) -> int {
    now.hour * 3600 + now.minute * 60 + now.second
}

proof fn lemma_minutes_close(now: LocalTime)
    requires
        now.valid(),
    ensures
        apart(60 * now.minutes(), second_of_day(now) * unit()) <= 0x8_0000_0000_0000,
{
    let s = now.second as int;
    let m = now.whole_minutes();
    let q = quotient(s * unit(), 60 * unit());
    lemma_seconds(s);
    lemma_rounded_scaled(s * unit(), 60, unit());
    rounding_stays_close(s * unit(), 60);
    assert(q == rounded(s * unit(), 60));
    assert(apart(q * 60, s * unit()) <= 0x80_0000_0000);
    rounding_stays_close(m * unit() + q, 1);
    assert(rounded(m * unit() + q, 1) * 1 == now.minutes());
    assert(apart(now.minutes(), m * unit() + q) <= 0x1000_0000_0000);
}

proof fn lemma_forward_close(start: int, now: LocalTime)
    requires
        0 <= start < 1440,
        now.valid(),
    ensures
        apart(60 * forward(start * unit(), now.minutes()), seconds_since(start, now) * unit())
            <= 0x20_0000_0000_0000,
        0 <= forward(start * unit(), now.minutes()) <= 1440 * unit(),
{
    let from = start * unit();
    let at = now.minutes();
    lemma_minutes(now);
    lemma_minutes_close(now);
    lemma_seconds_since(start, now);
    lemma_forward(start, now.whole_minutes(), at, 63);
    if now.whole_minutes() >= start {
        rounding_stays_close(at - from, 1);
        let d = difference(at, from);
        assert(d * 1 == d);
        assert(apart(d, at - from) <= 0x1000_0000_0000);
        lemma_within_day(at - from, now.whole_minutes() - start);
        lemma_less_than_a_day(d);
    } else {
        rounding_stays_close(from - at, 1);
        let back = difference(from, at);
        assert(back * 1 == back);
        assert(apart(back, from - at) <= 0x1000_0000_0000);
        let short = start - now.whole_minutes();
        lemma_wholes(short);
        lemma_sixty_fourths(64 * short - 63);
        lemma_rounded_between(from - at, 1, (64 * short - 63) * sixty_fourth(), short * unit());
        lemma_less_than_a_day(back);
        rounding_stays_close(day_length() - back, 1);
        let d = difference(day_length(), back);
        assert(d * 1 == d);
        assert(apart(d, day_length() - back) <= 0x1000_0000_0000);
    }
}

proof fn lemma_progress_close(start: int, now: LocalTime, duration: u16)
    requires
        0 <= start < 1440,
        now.valid(),
        seconds_since(start, now) < duration * 60,
    ensures
        apart(
            (60 * duration) * progress(now.minutes(), start * unit(), duration as int),
            seconds_since(start, now) * unit(),
        ) <= 0x40_0000_0000_0000,
        0 <= progress(now.minutes(), start * unit(), duration as int) < unit(),
{
    lemma_seconds_since(start, now);
    lemma_progress(start, now, duration);
    lemma_forward_close(start, now);
    let ahead = forward(start * unit(), now.minutes());
    let t = duration as int;
    let share = progress(now.minutes(), start * unit(), t);
    lemma_rounded_scaled(ahead, t, unit());
    assert(share == rounded(ahead, t));
    rounding_stays_close(ahead, t);
    assert(apart(share * t, ahead) <= 0x1000_0000_0000);
    assert((60 * t) * share == 60 * (share * t)) by (nonlinear_arith);
}

/// Whether a level is the whole number nearest to the blend of two levels, after some seconds of a
/// change from the first to the second that takes a number of seconds.
pub open spec fn fades(level: int, from: int, to: int, seconds: int, length: int) -> bool {
    2 * apart(level * length, from * (length - seconds) + to * seconds) <= length
}

proof fn lemma_blend_close(from: int, to: int, share: int, seconds: int, length: int)
    requires
        0 <= from <= 255,
        0 <= to <= 255,
        0 <= share < unit(),
        0 <= seconds < length <= 60 * 65535,
        apart(length * share, seconds * unit()) <= 0x40_0000_0000_0000,
    ensures
        fades(blend(from, to, share), from, to, seconds, length),
{
    let u = unit();
    let span = apart(from, to);
    let p = product(share, span * u);
    lemma_wholes(from);
    lemma_wholes(to);
    lemma_share(share, span);
    assert(share * (span * u) == (share * span) * u) by (nonlinear_arith);
    lemma_rounded_scaled(share * span, 1, u);
    assert(0 <= share * span <= 255 * u) by (nonlinear_arith)
        requires
            0 <= share < u,
            0 <= span <= 255,
    ;
    rounding_stays_close(share * span, 1);
    assert(p * 1 == p);
    assert(apart(p, share * span) <= 0x200_0000_0000);
    let y = if to >= from {
        from * u + p
    } else {
        from * u - p
    };
    rounding_stays_close(y, 1);
    let x = rounded(y, 1);
    assert(x * 1 == x);
    assert(apart(x, y) <= 0x200_0000_0000);
    wholes_are_nearest(x);
    let w = whole(x);
    assert(w == blend(from, to, share));
    let exact = if to >= from {
        from * u + share * span
    } else {
        from * u - share * span
    };
    assert(apart(x, exact) <= 0x400_0000_0000);
    assert(2 * apart(w * u, exact) <= u + 0x800_0000_0000);
    // Scaled by the length, and then by the units in one.
    let l = length;
    let goal = from * (l - seconds) + to * seconds;
    assert(apart(l * exact, goal * u) <= 255 * 0x40_0000_0000_0000) by {
        let a = l * share;
        let b = seconds * u;
        assert(l * (share * span) == a * span) by (nonlinear_arith)
            requires
                a == l * share,
        ;
        assert(l * (from * u) == (from * l) * u) by (nonlinear_arith);
        assert(apart(a * span, b * span) <= 255 * 0x40_0000_0000_0000) by (nonlinear_arith)
            requires
                apart(a, b) <= 0x40_0000_0000_0000,
                0 <= span <= 255,
        ;
        assert(b * span == (seconds * span) * u) by (nonlinear_arith)
            requires
                b == seconds * u,
        ;
        if to >= from {
            assert(l * exact == l * (from * u) + l * (share * span)) by (nonlinear_arith)
                requires
                    exact == from * u + share * span,
            ;
            assert(goal == from * l + seconds * span) by (nonlinear_arith)
                requires
                    goal == from * (l - seconds) + to * seconds,
                    span == to - from,
            ;
            assert(goal * u == (from * l) * u + (seconds * span) * u) by (nonlinear_arith)
                requires
                    goal == from * l + seconds * span,
            ;
        } else {
            assert(l * exact == l * (from * u) - l * (share * span)) by (nonlinear_arith)
                requires
                    exact == from * u - share * span,
            ;
            assert(goal == from * l - seconds * span) by (nonlinear_arith)
                requires
                    goal == from * (l - seconds) + to * seconds,
                    span == from - to,
            ;
            assert(goal * u == (from * l) * u - (seconds * span) * u) by (nonlinear_arith)
                requires
                    goal == from * l - seconds * span,
            ;
        }
    }
    assert(2 * apart(l * (w * u), l * exact) <= l * u + l * 0x800_0000_0000) by (nonlinear_arith)
        requires
            2 * apart(w * u, exact) <= u + 0x800_0000_0000,
            l >= 0,
    ;
    assert(l * (w * u) == (w * l) * u) by (nonlinear_arith);
    let off = 2 * apart(w * l, goal);
    assert(off * u == 2 * apart((w * l) * u, goal * u)) by (nonlinear_arith)
        requires
            off == 2 * apart(w * l, goal),
            u > 0,
    ;
    assert(off * u < (l + 1) * u) by {
        assert((l + 1) * u == l * u + u) by (nonlinear_arith);
    }
    assert(off < l + 1) by (nonlinear_arith)
        requires
            off * u < (l + 1) * u,
            u > 0,
    ;
}

/// Automatic settings fade smoothly. The times that they go by say when the day and the night
/// start. From either start on, for the minutes of the transition, the levels are the blend of the
/// levels left and the levels led to, by the seconds that have passed, to the nearest percent. When
/// the morning's transition is over the levels are those of the day until the night starts, and
/// when the evening's is over they are those of the night.
pub proof fn automatic_settings_fade(
    settings: SettingsView,
    now: LocalTime,
    sky: Sky,
    times: ResolvedTimes,
)
    requires
        now.valid(),
        sky.valid(),
        settings.enabled,
        settings.automatic,
        resolved(settings.schedule, sky) == Ok::<ResolvedTimes, ErrorView>(times),
    ensures
        ({
            let day = settings.schedule.day;
            let night = settings.schedule.night;
            let second = now.hour * 3600 + now.minute * 60 + now.second;
            let since_day = (second - times.day_start * 60) % 86_400;
            let since_night = (second - times.night_start * 60) % 86_400;
            let daytime = (times.night_start * 60 - times.day_start * 60) % 86_400;
            let length = times.transition_minutes * 60;
            levels_now(settings, now, sky) matches Ok(levels) && {
                if since_day < length {
                    fades(
                        levels.warmth as int,
                        night.warmth as int,
                        day.warmth as int,
                        since_day,
                        length,
                    ) && fades(
                        levels.brightness as int,
                        night.brightness as int,
                        day.brightness as int,
                        since_day,
                        length,
                    )
                } else if since_day < daytime {
                    levels.warmth == day.warmth && levels.brightness == day.brightness
                } else if since_night < length {
                    fades(
                        levels.warmth as int,
                        day.warmth as int,
                        night.warmth as int,
                        since_night,
                        length,
                    ) && fades(
                        levels.brightness as int,
                        day.brightness as int,
                        night.brightness as int,
                        since_night,
                        length,
                    )
                } else {
                    levels.warmth == night.warmth && levels.brightness == night.brightness
                }
            }
        }),
{
    lemma_times_within_day(settings.schedule, sky);
    let d = times.day_start as int;
    let n = times.night_start as int;
    lemma_levels_fade(settings.schedule, times, now);
    lemma_seconds_since(d, now);
    lemma_seconds_since(n, now);
    lemma_daytime(d, n, now);
    assert(second_of_day(now) == now.whole_minutes() * 60 + now.second);
}

proof fn lemma_times_within_day(schedule: ScheduleView, sky: Sky)
    requires
        resolved(schedule, sky) is Ok,
    ensures
        resolved(schedule, sky)->Ok_0.day_start < 1440,
        resolved(schedule, sky)->Ok_0.night_start < 1440,
{
    if time_of(schedule.day_start) is Ok {
        times_lie_within_the_day(schedule.day_start);
    }
    if time_of(schedule.night_start) is Ok {
        times_lie_within_the_day(schedule.night_start);
    }
}

proof fn lemma_daytime(d: int, n: int, now: LocalTime)
    requires
        0 <= d < 1440,
        0 <= n < 1440,
        now.valid(),
    ensures
        (n * 60 - d * 60) % 86_400 == minutes_since(d, n) * 60,
        minutes_since(d, now.whole_minutes()) < minutes_since(d, n) <==> seconds_since(d, now) < (n
            * 60 - d * 60) % 86_400,
{
    lemma_seconds_since(d, now);
}

/// Whether levels are blended of others, after some seconds of a change.
spec fn levels_fade(levels: Levels, from: Levels, to: Levels, seconds: int, length: int) -> bool {
    &&& fades(levels.warmth as int, from.warmth as int, to.warmth as int, seconds, length)
    &&& fades(
        levels.brightness as int,
        from.brightness as int,
        to.brightness as int,
        seconds,
        length,
    )
}

proof fn lemma_levels_fade(schedule: ScheduleView, times: ResolvedTimes, now: LocalTime)
    requires
        now.valid(),
        times.day_start < MINUTES_PER_DAY,
        times.night_start < MINUTES_PER_DAY,
    ensures
        ({
            let d = times.day_start as int;
            let n = times.night_start as int;
            let length = times.transition_minutes * 60;
            let levels = levels_at(schedule, times, now.minutes());
            if seconds_since(d, now) < length {
                levels_fade(levels, schedule.night, schedule.day, seconds_since(d, now), length)
            } else if minutes_since(d, now.whole_minutes()) < minutes_since(d, n) {
                levels == schedule.day
            } else if seconds_since(n, now) < length {
                levels_fade(levels, schedule.day, schedule.night, seconds_since(n, now), length)
            } else {
                levels == schedule.night
            }
        }),
{
    let d = times.day_start as int;
    let n = times.night_start as int;
    let t = times.transition_minutes as int;
    schedule_follows_the_clock(schedule, times, now);
    lemma_seconds_since(d, now);
    lemma_seconds_since(n, now);
    if seconds_since(d, now) < t * 60 {
        let share = progress(now.minutes(), d * unit(), t);
        lemma_progress_close(d, now, times.transition_minutes);
        lemma_faded(schedule.night, schedule.day, share, seconds_since(d, now), t * 60);
    } else if seconds_since(n, now) < t * 60 {
        let share = progress(now.minutes(), n * unit(), t);
        lemma_progress_close(n, now, times.transition_minutes);
        lemma_faded(schedule.day, schedule.night, share, seconds_since(n, now), t * 60);
    }
}

proof fn lemma_faded(from: Levels, to: Levels, share: int, seconds: int, length: int)
    requires
        0 <= share < unit(),
        0 <= seconds < length <= 60 * 65535,
        apart(length * share, seconds * unit()) <= 0x40_0000_0000_0000,
    ensures
        fades(
            blended(from, to, share).warmth as int,
            from.warmth as int,
            to.warmth as int,
            seconds,
            length,
        ),
        fades(
            blended(from, to, share).brightness as int,
            from.brightness as int,
            to.brightness as int,
            seconds,
            length,
        ),
{
    lemma_blend_between(from.warmth as int, to.warmth as int, share);
    lemma_blend_between(from.brightness as int, to.brightness as int, share);
    lemma_blend_close(from.warmth as int, to.warmth as int, share, seconds, length);
    lemma_blend_close(from.brightness as int, to.brightness as int, share, seconds, length);
}

/// With fixed timing the times are the minutes that the texts of the schedule name, and the
/// transition takes as long as the schedule says, whatever the sun does.
pub proof fn fixed_schedules_go_by_their_texts(schedule: ScheduleView, sky: Sky)
    requires
        schedule.timing == ScheduleTiming::Fixed,
    ensures
        resolved(schedule, sky) matches Ok(times) ==> time_of(schedule.day_start) == Ok::<
            int,
            ErrorView,
        >(times.day_start as int) && time_of(schedule.night_start) == Ok::<int, ErrorView>(
            times.night_start as int,
        ) && times.transition_minutes == schedule.transition_minutes,
        resolved(schedule, sky) is Ok <==> time_of(schedule.day_start) is Ok && time_of(
            schedule.night_start,
        ) is Ok,
{
    if let Ok(_) = time_of(schedule.day_start) {
        times_lie_within_the_day(schedule.day_start);
    }
    if let Ok(_) = time_of(schedule.night_start) {
        times_lie_within_the_day(schedule.night_start);
    }
}

/// With timing by location the day starts at the local minute of civil dawn and the night at that
/// of civil dusk. The transition takes as long as the schedule says, or as the shorter of day and
/// night if that is less.
pub proof fn located_schedules_go_by_the_sun(schedule: ScheduleView, sky: Sky, dawn: i64, dusk: i64)
    requires
        schedule.timing == ScheduleTiming::Location,
        schedule.latitude.within_spec(POLE),
        schedule.longitude.within_spec(ANTIMERIDIAN),
        sky.dawn == Some(dawn),
        sky.dusk == Some(dusk),
        (dawn + sky.offset) % 86_400 / 60 != (dusk + sky.offset) % 86_400 / 60,
    ensures
        resolved(schedule, sky) matches Ok(times) && {
            let day = (dawn + sky.offset) % 86_400 / 60;
            let night = (dusk + sky.offset) % 86_400 / 60;
            let daytime = (night - day) % 1440;
            let shorter = if daytime <= 1440 - daytime {
                daytime
            } else {
                1440 - daytime
            };
            &&& times.day_start == day
            &&& times.night_start == night
            &&& times.transition_minutes == (if schedule.transition_minutes <= shorter {
                schedule.transition_minutes as int
            } else {
                shorter
            })
        },
{
}

/// Where the sun gives no times, a schedule by location goes by its clock times, as one with fixed
/// timing does: where its coordinates are not on the globe, where there is no dawn or no dusk, and
/// where both fall in the same minute.
pub proof fn schedules_without_sun_go_by_the_clock(schedule: ScheduleView, sky: Sky)
    requires
        schedule.timing == ScheduleTiming::Location,
        !schedule.latitude.within_spec(POLE) || !schedule.longitude.within_spec(ANTIMERIDIAN)
            || sky.dawn is None || sky.dusk is None || (sky.dawn->0 + sky.offset) % 86_400 / 60 == (
        sky.dusk->0 + sky.offset) % 86_400 / 60,
    ensures
        resolved(schedule, sky) == resolved(
            ScheduleView { timing: ScheduleTiming::Fixed, ..schedule },
            sky,
        ),
{
}

/// A filter that is off leaves the display neutral: without warmth, at full brightness.
pub proof fn filters_that_are_off_leave_the_display_neutral(
    settings: SettingsView,
    now: LocalTime,
    sky: Sky,
)
    requires
        !settings.enabled,
    ensures
        levels_now(settings, now, sky) matches Ok(levels) && levels.warmth == 0
            && levels.brightness == 100,
{
}

/// The local minute of an instant is how many whole minutes of the local day have passed: the minute
/// starts at the instant or less than a minute before it. A day later it is the same.
pub proof fn local_minutes_count_from_midnight(seconds: int, offset: int)
    ensures
        0 <= local_minute(seconds, offset) < 1440,
        60 * local_minute(seconds, offset) <= (seconds + offset) % 86_400,
        (seconds + offset) % 86_400 < 60 * local_minute(seconds, offset) + 60,
        local_minute(seconds + 86_400, offset) == local_minute(seconds, offset),
{
    let second = (seconds + offset) % 86_400;
    assert((seconds + 86_400 + offset) % 86_400 == second);
    assert(local_minute(seconds, offset) == second / 60);
}

/// Civil twilight gives the local minutes of dawn and dusk and the transition of the schedule. It is
/// refused where the coordinates are not on the globe, where there is no dawn or no dusk, and where
/// both fall in the same minute, each with its own reason.
pub proof fn twilight_gives_dawn_and_dusk(schedule: ScheduleView, sky: Sky)
    ensures
        ({
            let on_globe = schedule.latitude.within_spec(POLE) && schedule.longitude.within_spec(
                ANTIMERIDIAN,
            );
            &&& !on_globe ==> twilight(schedule, sky) == Err::<ResolvedTimes, ErrorView>(
                fault(ErrorKind::Coordinates),
            )
            &&& on_globe && sky.dawn is None ==> twilight(schedule, sky) == Err::<
                ResolvedTimes,
                ErrorView,
            >(fault(ErrorKind::NoDawn))
            &&& on_globe && sky.dawn is Some && sky.dusk is None ==> twilight(schedule, sky) == Err::<
                ResolvedTimes,
                ErrorView,
            >(fault(ErrorKind::NoDusk))
            &&& on_globe && sky.dawn is Some && sky.dusk is Some ==> {
                let day = (sky.dawn->0 + sky.offset) % 86_400 / 60;
                let night = (sky.dusk->0 + sky.offset) % 86_400 / 60;
                &&& day == night ==> twilight(schedule, sky) == Err::<ResolvedTimes, ErrorView>(
                    fault(ErrorKind::DawnIsDusk),
                )
                &&& day != night ==> (twilight(schedule, sky) matches Ok(times) && times.day_start
                    == day && times.night_start == night && times.transition_minutes
                    == schedule.transition_minutes)
            }
        }),
{
}

/// A transition that was asked for is kept if it fits into the day and into the night, and cut to
/// the shorter of them if it does not. The starts stay.
pub proof fn transitions_are_cut_to_fit(times: ResolvedTimes, requested: u16)
    requires
        times.day_start < 1440,
        times.night_start < 1440,
        times.day_start != times.night_start,
    ensures
        ({
            let cut = with_clamped_transition(times, requested);
            let daytime = (times.night_start - times.day_start) % 1440;
            let nighttime = (times.day_start - times.night_start) % 1440;
            &&& cut.day_start == times.day_start
            &&& cut.night_start == times.night_start
            &&& cut.transition_minutes <= daytime && cut.transition_minutes <= nighttime
            &&& requested <= daytime && requested <= nighttime ==> cut.transition_minutes
                == requested
            &&& requested > daytime || requested > nighttime ==> cut.transition_minutes == daytime
                || cut.transition_minutes == nighttime
        }),
{
}

/// By its clock times alone, a schedule that is valid calls for what settings call for that follow
/// it with fixed timing.
pub proof fn clock_times_are_those_of_fixed_timing(schedule: ScheduleView, sky: Sky)
    ensures
        clock_times(schedule) == resolved(
            ScheduleView { timing: ScheduleTiming::Fixed, ..schedule },
            sky,
        ),
{
}

}
