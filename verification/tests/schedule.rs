use chrono::{DateTime, Local, Offset, TimeZone, Timelike};
use sunrise::{Coordinates, DawnType, SolarDay, SolarEvent};
use waywarm::config::{Levels, Schedule, ScheduleTiming, Settings};
use waywarm::coordinate::Coordinate;
use waywarm::schedule::{
    civil_twilight_minutes, clamp_transition, current_levels, resolve_times, scheduled_levels,
    scheduled_levels_with_times, utc_to_local_minute, LocalTime, ResolvedTimes, Sky,
};

fn schedule() -> Schedule {
    Schedule::default()
}

fn clock(hour: u8, minute: u8) -> LocalTime {
    LocalTime { hour, minute, second: 0 }
}

fn no_sky() -> Sky {
    Sky { dawn: None, dusk: None, offset: 0 }
}

/// The sun at the place of a schedule on the day of a time.
fn sky_of(schedule: &Schedule, now: DateTime<Local>) -> Sky {
    let solar = Coordinates::new(
        f64::from_bits(schedule.latitude.bits),
        f64::from_bits(schedule.longitude.bits),
    )
    .map(|place| SolarDay::new(place, now.date_naive()));
    let seconds = |event: SolarEvent| {
        solar.as_ref().and_then(|day| day.event_time(event)).map(|time| time.timestamp())
    };
    Sky {
        dawn: seconds(SolarEvent::Dawn(DawnType::Civil)),
        dusk: seconds(SolarEvent::Dusk(DawnType::Civil)),
        offset: now.offset().fix().local_minus_utc(),
    }
}

#[test]
fn returns_day_and_night_targets() {
    assert_eq!(scheduled_levels(&schedule(), clock(12, 0)).unwrap(), schedule().day);
    assert_eq!(scheduled_levels(&schedule(), clock(23, 0)).unwrap(), schedule().night);
    assert_eq!(scheduled_levels(&schedule(), clock(2, 0)).unwrap(), schedule().night);
}

#[test]
fn interpolates_both_transitions() {
    assert_eq!(
        scheduled_levels(&schedule(), clock(21, 15)).unwrap(),
        Levels { warmth: 25, brightness: 95 }
    );
    assert_eq!(
        scheduled_levels(&schedule(), clock(7, 15)).unwrap(),
        Levels { warmth: 25, brightness: 95 }
    );
}

#[test]
fn supports_instant_transitions() {
    let mut value = schedule();
    value.transition_minutes = 0;
    assert_eq!(scheduled_levels(&value, clock(21, 0)).unwrap(), value.night);
    assert_eq!(scheduled_levels(&value, clock(7, 0)).unwrap(), value.day);
}

#[test]
fn uses_custom_day_levels() {
    let mut value = schedule();
    value.day = Levels { warmth: 20, brightness: 100 };
    value.night = Levels { warmth: 60, brightness: 80 };
    assert_eq!(scheduled_levels(&value, clock(12, 0)).unwrap(), value.day);
    assert_eq!(scheduled_levels(&value, clock(23, 0)).unwrap(), value.night);
    assert_eq!(
        scheduled_levels(&value, clock(21, 15)).unwrap(),
        Levels { warmth: 40, brightness: 90 }
    );
    assert_eq!(
        scheduled_levels(&value, clock(7, 15)).unwrap(),
        Levels { warmth: 40, brightness: 90 }
    );
}

#[test]
fn location_timing_resolves_civil_twilight() {
    let mut value = schedule();
    value.timing = ScheduleTiming::Location;
    // Toronto
    value.latitude = Coordinate { bits: 43.6532f64.to_bits() };
    value.longitude = Coordinate { bits: (-79.3832f64).to_bits() };
    let now = Local.with_ymd_and_hms(2023, 6, 21, 12, 0, 0).single().unwrap();
    let times = resolve_times(&value, sky_of(&value, now)).unwrap();
    assert_ne!(times.day_start, times.night_start);
    // Resolved times should differ from the unused fixed defaults on midsummer.
    assert!(
        times.day_start != 7 * 60 || times.night_start != 21 * 60,
        "expected civil twilight, got day={} night={}",
        times.day_start,
        times.night_start
    );
}

#[test]
fn location_falls_back_when_sun_events_missing() {
    let mut value = schedule();
    value.timing = ScheduleTiming::Location;
    // Near north pole in midwinter — often no civil dawn/dusk.
    value.latitude = Coordinate { bits: 89.0f64.to_bits() };
    value.longitude = Coordinate { bits: 0.0f64.to_bits() };
    value.day_start = "08:00".into();
    value.night_start = "16:00".into();
    let now = Local.with_ymd_and_hms(2023, 12, 21, 12, 0, 0).single().unwrap();
    let times = resolve_times(&value, sky_of(&value, now)).unwrap();
    assert_eq!(times.day_start, 8 * 60);
    assert_eq!(times.night_start, 16 * 60);
}

#[test]
fn fixed_timing_ignores_coordinates() {
    let mut value = schedule();
    value.timing = ScheduleTiming::Fixed;
    value.latitude = Coordinate { bits: 43.0f64.to_bits() };
    value.longitude = Coordinate { bits: (-79.0f64).to_bits() };
    let now = Local::now();
    let times = resolve_times(&value, sky_of(&value, now)).unwrap();
    assert_eq!(times.day_start, 7 * 60);
    assert_eq!(times.night_start, 21 * 60);
}

/// The levels of a schedule in double-precision arithmetic.
fn reference(schedule: &Schedule, times: ResolvedTimes, now: LocalTime) -> Levels {
    let minute = now.hour as f64 * 60.0 + now.minute as f64 + now.second as f64 / 60.0;
    let day = times.day_start as f64;
    let night = times.night_start as f64;
    let duration = times.transition_minutes as f64;
    let forward = |from: f64, to: f64| (to - from).rem_euclid(1440.0);
    let progress = |start: f64| {
        if duration == 0.0 {
            1.0
        } else {
            (forward(start, minute) / duration).clamp(0.0, 1.0)
        }
    };
    let lerp = |from: u8, to: u8, share: f64| {
        (from as f64 + (to as f64 - from as f64) * share).round() as u8
    };
    let blend = |from: Levels, to: Levels, share: f64| Levels {
        warmth: lerp(from.warmth, to.warmth, share),
        brightness: lerp(from.brightness, to.brightness, share),
    };
    if progress(day) < 1.0 {
        blend(schedule.night, schedule.day, progress(day))
    } else if forward(day, minute) < forward(day, night) {
        schedule.day
    } else if progress(night) < 1.0 {
        blend(schedule.day, schedule.night, progress(night))
    } else {
        schedule.night
    }
}

#[test]
fn levels_agree_with_double_precision_arithmetic() {
    let mut value = schedule();
    let cases = [
        (420, 1260, 30, 0, 50, 100, 90),
        (421, 1259, 240, 3, 97, 100, 11),
        (1439, 0, 1, 90, 10, 10, 100),
        (5, 1430, 7, 13, 13, 55, 54),
        (300, 900, 0, 0, 100, 100, 10),
        (700, 700, 60, 1, 2, 3, 4),
        (65535, 40000, 65535, 255, 0, 0, 255),
        (1500, 2900, 100, 20, 80, 80, 20),
    ];
    for (day, night, fade, day_warmth, night_warmth, day_light, night_light) in cases {
        value.day = Levels { warmth: day_warmth, brightness: day_light };
        value.night = Levels { warmth: night_warmth, brightness: night_light };
        let times = ResolvedTimes {
            day_start: day,
            night_start: night,
            transition_minutes: fade,
        };
        for second in (0..86_400u32).step_by(37) {
            let now = LocalTime {
                hour: (second / 3600) as u8,
                minute: (second / 60 % 60) as u8,
                second: (second % 60) as u8,
            };
            assert_eq!(
                scheduled_levels_with_times(&value, times, now),
                reference(&value, times, now),
                "{times:?} at {now:?}"
            );
        }
    }
}

#[test]
fn levels_stay_between_day_and_night_and_move_one_way() {
    let mut value = schedule();
    value.day = Levels { warmth: 5, brightness: 100 };
    value.night = Levels { warmth: 65, brightness: 70 };
    let mut last = value.day;
    for second in 0..1800u32 {
        let now = LocalTime {
            hour: 21,
            minute: (second / 60) as u8,
            second: (second % 60) as u8,
        };
        let levels = scheduled_levels(&value, now).unwrap();
        assert!((5..=65).contains(&levels.warmth));
        assert!((70..=100).contains(&levels.brightness));
        assert!(levels.warmth >= last.warmth && levels.brightness <= last.brightness);
        last = levels;
    }
    assert_eq!(scheduled_levels(&value, clock(21, 0)).unwrap(), value.day);
    assert_eq!(scheduled_levels(&value, clock(7, 0)).unwrap(), value.night);
}

#[test]
fn settings_that_are_off_or_manual_do_not_follow_the_schedule() {
    let mut settings = Settings::default();
    assert_eq!(
        current_levels(&settings, clock(23, 0), no_sky()).unwrap(),
        settings.schedule.night
    );
    settings.automatic = false;
    settings.manual = Levels { warmth: 33, brightness: 44 };
    assert_eq!(current_levels(&settings, clock(23, 0), no_sky()).unwrap(), settings.manual);
    settings.enabled = false;
    assert_eq!(current_levels(&settings, clock(23, 0), no_sky()).unwrap(), Levels::neutral());
    settings.enabled = true;
    settings.automatic = true;
    settings.schedule.day_start = "x".into();
    settings.schedule.night_start = "y".into();
    assert_eq!(
        current_levels(&settings, clock(23, 0), no_sky()).unwrap_err().message(),
        "invalid time \"x\"; expected HH:MM"
    );
}

#[test]
fn instants_fall_into_minutes_of_the_local_day() {
    // 2023-06-21 09:30:59 UTC.
    let instant = 1_687_339_859;
    assert_eq!(utc_to_local_minute(instant, 0), 9 * 60 + 30);
    assert_eq!(utc_to_local_minute(instant, 2 * 3600), 11 * 60 + 30);
    assert_eq!(utc_to_local_minute(instant, -10 * 3600), 23 * 60 + 30);
    assert_eq!(utc_to_local_minute(instant, 19_800), 15 * 60);
    assert_eq!(utc_to_local_minute(-1, 0), 23 * 60 + 59);
    assert_eq!(utc_to_local_minute(-8_334_601_228_800, -86_399), 0);
    assert_eq!(utc_to_local_minute(8_210_266_876_799, 86_399), 23 * 60 + 59);
}

#[test]
fn twilight_says_why_there_is_none() {
    let mut value = schedule();
    value.timing = ScheduleTiming::Location;
    let sky = |dawn, dusk| Sky { dawn, dusk, offset: 3600 };
    let why = |value: &Schedule, sky| civil_twilight_minutes(value, sky).unwrap_err().message();
    assert_eq!(
        why(&value, sky(None, Some(0))),
        "civil dawn does not occur at this location today"
    );
    assert_eq!(
        why(&value, sky(Some(0), None)),
        "civil dusk does not occur at this location today"
    );
    assert_eq!(why(&value, sky(Some(0), Some(59))), "civil dawn and dusk coincide");
    assert_eq!(
        civil_twilight_minutes(&value, sky(Some(4 * 3600), Some(20 * 3600))).unwrap(),
        ResolvedTimes { day_start: 300, night_start: 1260, transition_minutes: 30 }
    );
    value.longitude = Coordinate { bits: 181.0f64.to_bits() };
    assert_eq!(why(&value, sky(Some(0), Some(3600))), "invalid latitude/longitude");
}

#[test]
fn transitions_are_cut_to_the_gap_of_the_sun() {
    let times = ResolvedTimes { day_start: 600, night_start: 620, transition_minutes: 0 };
    assert_eq!(clamp_transition(times, 45).transition_minutes, 20);
    assert_eq!(clamp_transition(times, 5).transition_minutes, 5);
    let times = ResolvedTimes { day_start: 5, night_start: 1435, transition_minutes: 0 };
    assert_eq!(clamp_transition(times, 45).transition_minutes, 10);

    let mut value = schedule();
    value.timing = ScheduleTiming::Location;
    value.transition_minutes = 240;
    let sky = Sky { dawn: Some(10 * 3600), dusk: Some(11 * 3600), offset: 0 };
    assert_eq!(
        resolve_times(&value, sky).unwrap(),
        ResolvedTimes { day_start: 600, night_start: 660, transition_minutes: 60 }
    );
}

#[test]
fn the_clock_of_the_machine_is_a_valid_time() {
    let now = Local::now();
    let time = LocalTime {
        hour: now.hour() as u8,
        minute: now.minute() as u8,
        second: now.second() as u8,
    };
    assert!(time.hour < 24 && time.minute < 60 && time.second < 60);
    assert!(current_levels(&Settings::default(), time, no_sky()).is_ok());
}
