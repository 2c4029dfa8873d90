use waywarm::config::{
    parse_time, ConfigStore, Levels, Preset, Schedule, ScheduleTiming, Settings,
};
use waywarm::coordinate::{Coordinate, ANTIMERIDIAN, POLE};
use waywarm::error::ErrorKind;

fn degrees(value: f64) -> Coordinate {
    Coordinate { bits: value.to_bits() }
}

#[test]
fn rejects_invalid_values_and_versions() {
    let mut settings = Settings::default();
    settings.manual.brightness = 0;
    assert!(settings.validate().is_err());
    settings.manual.brightness = 100;
    settings.version = 99;
    assert!(settings.validate().is_err());
}

#[test]
fn rejects_overlapping_transitions() {
    let mut settings = Settings::default();
    settings.schedule.day_start = "20:59".into();
    assert!(settings.validate().is_err());
}

#[test]
fn parses_strict_times() {
    assert_eq!(parse_time("07:30").unwrap(), 450);
    assert!(parse_time("7:30").is_err());
    assert!(parse_time("24:00").is_err());
}

#[test]
fn accepts_location_timing() {
    let mut settings = Settings::default();
    settings.schedule.timing = ScheduleTiming::Location;
    settings.schedule.latitude = degrees(48.8566);
    settings.schedule.longitude = degrees(2.3522);
    settings.validate().unwrap();
}

#[test]
fn rejects_invalid_coordinates() {
    let mut settings = Settings::default();
    settings.schedule.timing = ScheduleTiming::Location;
    settings.schedule.latitude = degrees(100.0);
    assert!(settings.validate().is_err());
}

#[test]
fn preset_save_apply_and_delete() {
    let mut settings = Settings::default();
    settings.manual.warmth = 70;
    settings.save_preset("reading").unwrap();
    assert!(settings.presets.contains_key("reading"));

    settings.manual.warmth = 10;
    settings.apply_preset("reading").unwrap();
    assert_eq!(settings.manual.warmth, 70);

    settings.delete_preset("reading").unwrap();
    assert!(settings.presets.is_empty());
    assert!(settings.apply_preset("reading").is_err());
}

#[test]
fn rejects_empty_preset_names() {
    let mut settings = Settings::default();
    assert!(settings.save_preset("").is_err());
    assert!(settings.save_preset("   ").is_err());
}

#[test]
fn default_settings_hold_the_documented_values() {
    let settings = Settings::default();
    assert_eq!(settings.version, 1);
    assert!(settings.enabled);
    assert!(settings.automatic);
    assert_eq!(settings.manual, Levels { warmth: 50, brightness: 90 });
    assert_eq!(settings.schedule.night_start, "21:00");
    assert_eq!(settings.schedule.day_start, "07:00");
    assert_eq!(settings.schedule.transition_minutes, 30);
    assert_eq!(settings.schedule.day, Levels { warmth: 0, brightness: 100 });
    assert_eq!(settings.schedule.night, Levels { warmth: 50, brightness: 90 });
    assert_eq!(settings.schedule.timing, ScheduleTiming::Fixed);
    assert_eq!(settings.schedule.latitude, degrees(0.0));
    assert!(settings.presets.is_empty());
    settings.validate().unwrap();
}

#[test]
fn times_report_what_is_wrong_with_them() {
    let text = |value: &str| parse_time(value).unwrap_err().message();
    assert_eq!(text("0730"), "invalid time \"0730\"; expected HH:MM");
    assert_eq!(text("24:00"), "invalid time \"24:00\"; expected HH:MM");
    assert_eq!(text("12:60"), "invalid time \"12:60\"; expected HH:MM");
    assert_eq!(text("007:30"), "invalid time \"007:30\"; expected HH:MM");
    assert_eq!(
        text(":30"),
        "invalid hour in \":30\": cannot parse integer from empty string"
    );
    assert_eq!(text("xx:30"), "invalid hour in \"xx:30\": invalid digit found in string");
    assert_eq!(text("07:3x"), "invalid minute in \"07:3x\": invalid digit found in string");
    assert_eq!(
        text("70000:00"),
        "invalid hour in \"70000:00\": number too large to fit in target type"
    );
    assert_eq!(text("07:30:00"), "invalid minute in \"07:30:00\": invalid digit found in string");
    assert_eq!(parse_time("00:00").unwrap(), 0);
    assert_eq!(parse_time("23:59").unwrap(), 1439);
    assert_eq!(parse_time("+7:30").unwrap(), 450);
}

#[test]
fn every_time_of_day_is_read() {
    for hour in 0..24u16 {
        for minute in 0..60u16 {
            assert_eq!(parse_time(&format!("{hour:02}:{minute:02}")).unwrap(), hour * 60 + minute);
        }
    }
}

#[test]
fn levels_report_what_is_wrong_with_them() {
    let text = |warmth, brightness| {
        Levels { warmth, brightness }.validate().unwrap_err().message()
    };
    assert_eq!(text(101, 100), "warmth must be between 0 and 100 percent");
    assert_eq!(text(0, 9), "brightness must be between 10 and 100 percent");
    assert_eq!(text(0, 101), "brightness must be between 10 and 100 percent");
    Levels { warmth: 100, brightness: 10 }.validate().unwrap();
    assert_eq!(Levels::default(), Levels::neutral());
}

#[test]
fn schedules_report_what_is_wrong_with_them() {
    let schedule = |change: fn(&mut Schedule)| {
        let mut schedule = Schedule::default();
        change(&mut schedule);
        schedule.validate().map_err(|error| error.message())
    };
    assert_eq!(schedule(|_| {}), Ok(()));
    assert_eq!(
        schedule(|s| s.transition_minutes = 241),
        Err("transition must be between 0 and 240 minutes".to_owned())
    );
    assert_eq!(
        schedule(|s| s.day_start = "21:00".into()),
        Err("day and night start times must differ".to_owned())
    );
    assert_eq!(
        schedule(|s| s.day_start = "20:59".into()),
        Err("transition is longer than the gap between day and night start times".to_owned())
    );
    assert_eq!(
        schedule(|s| {
            s.timing = ScheduleTiming::Location;
            s.latitude = Coordinate { bits: (-90.5f64).to_bits() };
        }),
        Err("latitude must be between -90 and 90 degrees".to_owned())
    );
    assert_eq!(
        schedule(|s| {
            s.timing = ScheduleTiming::Location;
            s.longitude = Coordinate { bits: f64::NAN.to_bits() };
        }),
        Err("longitude must be between -180 and 180 degrees".to_owned())
    );
    // Coordinates do not count while the clock does.
    assert_eq!(schedule(|s| s.latitude = Coordinate { bits: 1000f64.to_bits() }), Ok(()));
    // The gap is measured the shorter way round the clock.
    assert_eq!(
        schedule(|s| {
            s.night_start = "23:50".into();
            s.day_start = "00:10".into();
            s.transition_minutes = 20;
        }),
        Ok(())
    );
}

#[test]
fn settings_name_the_preset_that_is_wrong() {
    let mut settings = Settings::default();
    let mut preset = Preset::from_settings(&settings);
    preset.manual.warmth = 120;
    settings.presets.insert("dim".to_owned(), preset);
    assert_eq!(
        settings.validate().unwrap_err().message(),
        "invalid preset \"dim\": warmth must be between 0 and 100 percent"
    );

    let mut settings = Settings::default();
    let preset = Preset::from_settings(&settings);
    settings.presets.insert(" \t".to_owned(), preset);
    assert_eq!(settings.validate().unwrap_err().message(), "preset names must not be empty");

    let mut settings = Settings::default();
    let preset = Preset::from_settings(&settings);
    settings.presets.insert("a\nb".to_owned(), preset);
    assert_eq!(
        settings.validate().unwrap_err().message(),
        "preset name \"a\\nb\" contains invalid characters"
    );

    let mut settings = Settings::default();
    settings.version = 7;
    let error = settings.validate().unwrap_err();
    assert_eq!(error.kind, ErrorKind::ConfigVersion(7));
    assert_eq!(error.message(), "unsupported configuration version 7 (expected 1)");
}

#[test]
fn refused_presets_leave_the_settings_alone() {
    let mut settings = Settings::default();
    let before = settings.clone();
    assert_eq!(
        settings.save_preset(" ").unwrap_err().message(),
        "preset name must not be empty"
    );
    assert_eq!(
        settings.save_preset("a\u{7f}").unwrap_err().message(),
        "preset name contains invalid characters"
    );
    assert_eq!(
        settings.apply_preset("none").unwrap_err().message(),
        "unknown preset \"none\""
    );
    assert_eq!(
        settings.delete_preset("none").unwrap_err().message(),
        "unknown preset \"none\""
    );
    assert_eq!(settings, before);
    assert!(settings.same(&before));
    settings.manual.warmth = 200;
    assert!(settings.save_preset("x").is_err());
    assert!(!settings.same(&before));
}

#[test]
fn presets_are_kept_in_the_order_of_their_names() {
    let mut settings = Settings::default();
    for name in ["b", "a", "ab", "é", "B", "a"] {
        settings.save_preset(name).unwrap();
    }
    assert_eq!(settings.presets.names(), vec!["B", "a", "ab", "b", "é"]);
    assert_eq!(settings.presets.len(), 5);
    settings.delete_preset("ab").unwrap();
    assert_eq!(settings.presets.names(), vec!["B", "a", "b", "é"]);
    assert!(settings.presets.get("ab").is_none());
    assert!(settings.presets.get("é").is_some());
    settings.validate().unwrap();
}

#[test]
fn a_saved_preset_restores_mode_levels_and_schedule_but_not_the_switch() {
    let mut settings = Settings::default();
    settings.automatic = false;
    settings.manual = Levels { warmth: 12, brightness: 34 };
    settings.schedule.night_start = "22:22".into();
    settings.save_preset("evening").unwrap();
    let saved = Preset::from_settings(&settings);

    settings.automatic = true;
    settings.enabled = false;
    settings.manual = Levels { warmth: 1, brightness: 99 };
    settings.schedule = Schedule::default();
    settings.apply_preset("evening").unwrap();
    assert_eq!(Preset::from_settings(&settings), saved);
    assert!(!settings.enabled);
}

#[test]
fn the_store_is_found_in_the_configuration_directory() {
    let found = |config: Option<&str>, home: Option<&str>| {
        ConfigStore::discover(config.map(str::to_owned), home.map(str::to_owned))
            .map(|store| store.path().to_owned())
            .map_err(|error| error.message())
    };
    assert_eq!(
        found(Some("/etc/xdg"), Some("/home/u")),
        Ok("/etc/xdg/waywarm/config.toml".to_owned())
    );
    assert_eq!(found(Some("/x/"), None), Ok("/x/waywarm/config.toml".to_owned()));
    assert_eq!(found(Some(""), None), Ok("waywarm/config.toml".to_owned()));
    assert_eq!(
        found(None, Some("/home/u")),
        Ok("/home/u/.config/waywarm/config.toml".to_owned())
    );
    assert_eq!(found(None, None), Err("HOME is not set".to_owned()));
    assert_eq!(ConfigStore::at("/a/b".to_owned()).clone().path(), "/a/b");
}

#[test]
fn coordinates_follow_the_numbers_they_stand_for() {
    let values = [
        0.0,
        -0.0,
        0.1,
        -0.1,
        89.999,
        90.0,
        90.0001,
        -90.0,
        -90.0001,
        180.0,
        -180.0,
        180.5,
        f64::INFINITY,
        f64::NEG_INFINITY,
        f64::NAN,
        f64::MIN_POSITIVE,
    ];
    for a in values {
        assert_eq!(degrees(a).within(POLE), (-90.0..=90.0).contains(&a));
        assert_eq!(degrees(a).within(ANTIMERIDIAN), (-180.0..=180.0).contains(&a));
        assert_eq!(degrees(a).clamped(POLE).bits, a.clamp(-90.0, 90.0).to_bits());
        assert_eq!(degrees(a).clamped(ANTIMERIDIAN).bits, a.clamp(-180.0, 180.0).to_bits());
        for b in values {
            assert_eq!(degrees(a) == degrees(b), a == b);
        }
    }
}
