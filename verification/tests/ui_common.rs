use waywarm::config::Schedule;
use waywarm::daemon::BackendEnd;
use waywarm::schedule::{scheduled_levels, LocalTime, Sky};
use waywarm::ui_common::{
    backend_status, build_timeline_segments, connect_or_start, field_help, format_hhmm,
    is_preset_name_char, Field, TimelinePhase, TimelineView, FIELDS, MINUTES_PER_DAY,
};

const SKY: Sky = Sky { dawn: None, dusk: None, offset: 0 };

fn noon_local() -> LocalTime {
    LocalTime { hour: 12, minute: 0, second: 0 }
}

fn midnight_local() -> LocalTime {
    LocalTime { hour: 0, minute: 0, second: 0 }
}

#[test]
fn ui_common_backend_status_distinguishes_service_temporary_and_unavailable() {
    assert_eq!(backend_status(false, true), "ONLINE");
    assert_eq!(backend_status(true, true), "TEMPORARY");
    assert_eq!(backend_status(false, false), "OFFLINE");
    assert_eq!(backend_status(true, false), "OFFLINE");
}

#[test]
fn ui_common_timeline_segments_match_default_schedule() {
    let schedule = Schedule::default();
    let view = TimelineView::from_schedule(&schedule, noon_local(), SKY).unwrap();

    assert_eq!(view.phase_at(12 * 60), TimelinePhase::Day);
    assert_eq!(view.phase_at(21 * 60 + 10), TimelinePhase::EveningFade);
    assert_eq!(view.phase_at(23 * 60), TimelinePhase::Night);
    assert_eq!(view.phase_at(2 * 60), TimelinePhase::Night);
    assert_eq!(view.phase_at(7 * 60 + 10), TimelinePhase::MorningFade);
    assert_eq!(view.phase_at(8 * 60), TimelinePhase::Day);
}

#[test]
fn ui_common_timeline_supports_instant_transitions() {
    let schedule = Schedule { transition_minutes: 0, ..Schedule::default() };
    let view = TimelineView::from_schedule(&schedule, midnight_local(), SKY).unwrap();
    assert_eq!(view.phase_at(21 * 60), TimelinePhase::Night);
    assert_eq!(view.phase_at(7 * 60), TimelinePhase::Day);
    assert_eq!(view.phase_at(6 * 60 + 59), TimelinePhase::Night);
}

#[test]
fn ui_common_timeline_covers_full_day_without_gaps() {
    let segments = build_timeline_segments(7 * 60, 21 * 60, 30);
    assert!(!segments.is_empty());
    assert_eq!(segments.first().unwrap().start, 0);
    assert_eq!(segments.last().unwrap().end, MINUTES_PER_DAY);
    for window in segments.windows(2) {
        assert_eq!(window[0].end, window[1].start);
    }
    let covered: u16 = segments.iter().map(|s| s.end - s.start).sum();
    assert_eq!(covered, MINUTES_PER_DAY);
}

#[test]
fn preset_name_chars_are_restricted() {
    assert!(is_preset_name_char('a'));
    assert!(is_preset_name_char('Z'));
    assert!(is_preset_name_char('9'));
    assert!(is_preset_name_char('-'));
    assert!(is_preset_name_char('_'));
    assert!(!is_preset_name_char(' '));
    assert!(!is_preset_name_char('/'));
}

#[test]
fn fields_are_gone_through_in_a_circle() {
    let mut field = Field::Mode;
    for (index, expected) in FIELDS.iter().enumerate() {
        assert_eq!(field, *expected);
        assert_eq!(field.index(), index);
        assert_eq!(field.next().previous(), field);
        field = field.next();
    }
    assert_eq!(field, Field::Mode);
    assert_eq!(Field::Mode.previous(), Field::Transition);
    assert!(Field::Preset.is_toggle());
    assert!(!Field::Transition.is_toggle());
}

#[test]
fn rows_leave_room_for_headings_and_blank_lines() {
    let rows = |spacious: bool| {
        FIELDS.iter().map(|field| field.row_index(spacious)).collect::<Vec<usize>>()
    };
    assert_eq!(rows(false), vec![1, 2, 3, 5, 6, 8, 9, 10, 11, 12, 13, 14, 15, 16, 17]);
    assert_eq!(rows(true), vec![1, 2, 3, 6, 7, 10, 11, 12, 13, 14, 15, 16, 17, 18, 19]);
}

#[test]
fn every_field_has_help() {
    for field in FIELDS {
        let (title, help) = field_help(field);
        assert!(!title.is_empty() && help.ends_with('.'));
    }
    assert_eq!(field_help(Field::Preset).0, "Preset");
}

#[test]
fn minutes_are_written_as_clock_times() {
    assert_eq!(format_hhmm(0), "00:00");
    assert_eq!(format_hhmm(75), "01:15");
    assert_eq!(format_hhmm(1439), "23:59");
    assert_eq!(format_hhmm(1440), "00:00");
}

#[test]
fn segments_hold_the_phases_of_the_schedule() {
    for (day, night, fade) in [
        (420u16, 1260u16, 30u16),
        (0, 720, 60),
        (720, 0, 60),
        (1430, 30, 20),
        (420, 450, 30),
        (450, 420, 30),
        (420, 1260, 0),
        (600, 600, 15),
        (600, 640, 100),
        (1, 2, 65535),
    ] {
        let segments = build_timeline_segments(day, night, fade);
        let mut next = 0;
        for segment in &segments {
            assert_eq!(segment.start, next);
            assert!(segment.start < segment.end);
            for minute in segment.start..segment.end {
                let since = |start: u16| (minute + 1440 - start) % 1440;
                let phase = if since(day) < fade {
                    TimelinePhase::MorningFade
                } else if since(day) < (night + 1440 - day) % 1440 {
                    TimelinePhase::Day
                } else if since(night) < fade {
                    TimelinePhase::EveningFade
                } else {
                    TimelinePhase::Night
                };
                assert_eq!(segment.phase, phase, "{day} {night} {fade} at {minute}");
            }
            next = segment.end;
        }
        assert_eq!(next, 1440);
        assert!(segments.windows(2).all(|pair| pair[0].phase != pair[1].phase));
    }
}

#[test]
fn phases_match_the_levels_of_the_schedule() {
    let schedule = Schedule::default();
    let view = TimelineView::from_schedule(&schedule, noon_local(), SKY).unwrap();
    for minute in 0..1440u16 {
        let now =
            LocalTime { hour: (minute / 60) as u8, minute: (minute % 60) as u8, second: 59 };
        let levels = scheduled_levels(&schedule, now).unwrap();
        match view.phase_at(minute) {
            TimelinePhase::Day => assert_eq!(levels, schedule.day),
            TimelinePhase::Night => assert_eq!(levels, schedule.night),
            _ => assert!(levels.warmth <= 50 && levels.brightness >= 90),
        }
    }
    assert_eq!(view.phase_at(1440 + 720), TimelinePhase::Day);
}

#[test]
fn the_time_is_shown_to_the_nearest_minute() {
    let schedule = Schedule::default();
    let shown = |hour, minute, second| {
        TimelineView::from_schedule(&schedule, LocalTime { hour, minute, second }, SKY)
            .unwrap()
            .now_minute
    };
    assert_eq!(shown(12, 0, 29), 720);
    assert_eq!(shown(12, 0, 30), 721);
    assert_eq!(shown(23, 59, 45), 0);
    let wrong = Schedule { day_start: "x".into(), ..Schedule::default() };
    assert!(TimelineView::from_schedule(&wrong, noon_local(), SKY).is_err());
}

#[test]
fn phases_have_their_looks() {
    assert_eq!(TimelinePhase::Day.glyph(), "█");
    assert_eq!(TimelinePhase::Night.glyph(), "█");
    assert_eq!(TimelinePhase::EveningFade.glyph(), "▒");
    assert_eq!(TimelinePhase::MorningFade.glyph(), "▒");
    assert_eq!(TimelinePhase::Day.rgb(true), (0, 75, 85));
    assert_eq!(TimelinePhase::Night.rgb(true), (95, 85, 45));
    assert_eq!(TimelinePhase::EveningFade.rgb(true), (95, 80, 15));
    assert_eq!(TimelinePhase::MorningFade.rgb(false), (45, 45, 45));
}

#[test]
fn temporary_backends_are_waited_for() {
    let connect = |attempts, answered, end| {
        connect_or_start(attempts, answered, &end).map_err(|error| error.message())
    };
    assert_eq!(connect(1, false, BackendEnd::Running), Ok(false));
    assert_eq!(connect(60, true, BackendEnd::Running), Ok(true));
    assert_eq!(
        connect(60, false, BackendEnd::Running),
        Err("temporary Waywarm backend did not become ready within 3 seconds".to_owned())
    );
    assert_eq!(
        connect(1, true, BackendEnd::Finished),
        Err("temporary display backend stopped unexpectedly".to_owned())
    );
}
