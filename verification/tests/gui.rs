use waywarm::config::{Levels, Schedule, ScheduleTiming, Settings};
use waywarm::coordinate::Coordinate;
use waywarm::gui::{
    delete_question, edit_settings, field_row, input_edit, paint_timeline, refresh_from,
    refresh_ui, section_fields, shown_value, Band, Control, Edit, GuiState, Section, Shown,
};
use waywarm::protocol::RuntimeState;
use waywarm::schedule::{LocalTime, Sky};
use waywarm::tray::{toggled_settings, MenuAction, MenuItem, WaywarmTray};
use waywarm::ui_common::{Field, TimelineView, FIELDS};

const NOON: LocalTime = LocalTime { hour: 12, minute: 0, second: 0 };
const SKY: Sky = Sky { dawn: None, dusk: None, offset: 0 };

fn test_state(settings: Settings, conflict: Option<&str>) -> RuntimeState {
    RuntimeState {
        settings,
        outputs: vec!["DP-1".into(), "DP-2".into()],
        backend: "test".into(),
        active_warmth: 50,
        active_brightness: 90,
        conflict: conflict.map(str::to_owned),
    }
}

fn test_gui() -> GuiState {
    GuiState::new(test_state(Settings::default(), None), false)
}

fn edited(edit: Edit) -> Settings {
    let mut settings = Settings::default();
    edit_settings(&mut settings, &edit);
    settings
}

#[test]
fn every_field_has_a_row_in_its_section() {
    let mut all = Vec::new();
    for section in [Section::General, Section::Manual, Section::Schedule] {
        for field in section_fields(section) {
            assert_eq!(field_row(field).section, section);
            all.push(field);
        }
    }
    assert_eq!(all, FIELDS.to_vec());
    assert_eq!(Section::Manual.heading(), "Manual override");
    assert_eq!(field_row(Field::Mode).subtitle, "Automatic schedule");
    let warmth = Control::Percent { minimum: 0, maximum: 100 };
    let brightness = Control::Percent { minimum: 10, maximum: 100 };
    for field in [Field::ManualWarmth, Field::DayWarmth, Field::NightWarmth] {
        assert_eq!(field_row(field).control, warmth);
    }
    for field in [Field::ManualBrightness, Field::DayBrightness, Field::NightBrightness] {
        assert_eq!(field_row(field).control, brightness);
    }
    assert_eq!(field_row(Field::NightStart).control, Control::Time { length: 5 });
    assert_eq!(field_row(Field::DayStart).control, Control::Time { length: 5 });
    assert_eq!(field_row(Field::Latitude).control, Control::Degrees { limit: 90 });
    assert_eq!(field_row(Field::Longitude).control, Control::Degrees { limit: 180 });
    assert_eq!(
        field_row(Field::Transition).control,
        Control::Minutes { minimum: 0, maximum: 240 }
    );
}

#[test]
fn controls_change_their_settings() {
    assert!(!edited(Edit::Automatic(false)).automatic);
    assert!(!edited(Edit::Enabled(false)).enabled);
    assert_eq!(
        edited(Edit::Timing(ScheduleTiming::Location)).schedule.timing,
        ScheduleTiming::Location
    );
    let settings = edited(Edit::ManualWarmth(7));
    assert_eq!(settings.manual, Levels { warmth: 7, brightness: 90 });
    assert!(settings.enabled && !settings.automatic);
    assert_eq!(edited(Edit::ManualBrightness(3)).manual.brightness, 10);
    assert_eq!(edited(Edit::DayWarmth(9)).schedule.day.warmth, 9);
    assert_eq!(edited(Edit::DayBrightness(9)).schedule.day.brightness, 10);
    assert_eq!(edited(Edit::NightWarmth(9)).schedule.night.warmth, 9);
    assert_eq!(edited(Edit::NightBrightness(77)).schedule.night.brightness, 77);
    assert_eq!(edited(Edit::NightStart("22:00".into())).schedule.night_start, "22:00");
    assert_eq!(edited(Edit::DayStart("05:00".into())).schedule.day_start, "05:00");
    assert_eq!(edited(Edit::Transition(999)).schedule.transition_minutes, 240);
    let place = Coordinate { bits: 12.5f64.to_bits() };
    assert_eq!(edited(Edit::Latitude(place)).schedule.latitude, place);
    assert_eq!(edited(Edit::Longitude(place)).schedule.longitude, place);
    let saved = edited(Edit::SavePreset("x".into()));
    assert!(saved.presets.contains_key("x"));
    assert_eq!(edited(Edit::SavePreset(" ".into())), Settings::default());
    assert_eq!(edited(Edit::ApplyPreset("x".into())), Settings::default());
    assert_eq!(edited(Edit::DeletePreset("x".into())), Settings::default());
    let mut settings = saved;
    edit_settings(&mut settings, &Edit::DeletePreset("x".into()));
    assert_eq!(settings, Settings::default());
}

#[test]
fn edits_are_sent_where_they_change_something() {
    let mut gui = test_gui();
    assert!(gui.apply_edit(&Edit::Enabled(true)).is_none());
    let edit = Edit::DayWarmth(9);
    let settings = gui.apply_edit(&edit).unwrap();
    assert_eq!(settings.schedule.day.warmth, 9);
    gui.finish_edit(Ok(test_state(settings, None)), 1000);
    gui.after_edit(&edit, 1000);
    assert_eq!(gui.selected, Field::DayWarmth);
    assert_eq!(gui.state.settings.schedule.day.warmth, 9);
    assert_eq!(gui.notice_text(), ("Settings saved".to_owned(), false));
    gui.expire_notice(2999);
    assert!(gui.notice.is_some());
    gui.expire_notice(3000);
    assert_eq!(
        gui.notice_text(),
        ("Connected service — changes save immediately".to_owned(), false)
    );
    gui.finish_edit(Err("full".into()), 4000);
    assert_eq!(gui.notice_text(), ("Settings not saved: full".to_owned(), true));
    // A failure that is shown stays.
    gui.finish_edit(Ok(test_state(Settings::default(), None)), 5000);
    assert_eq!(gui.notice_text().0, "Settings not saved: full");
}

#[test]
fn presets_are_announced() {
    let mut gui = test_gui();
    gui.after_edit(&Edit::SavePreset("x".into()), 0);
    assert_eq!(gui.notice_text().0, "Preset \"x\" saved");
    assert_eq!(gui.selected, Field::Mode);
    gui.after_edit(&Edit::ApplyPreset("x".into()), 0);
    assert_eq!(gui.notice_text().0, "Applied preset \"x\"");
    assert_eq!(gui.selected, Field::Preset);
    gui.after_edit(&Edit::DeletePreset("x".into()), 0);
    assert_eq!(gui.notice_text().0, "Preset \"x\" deleted");
    assert_eq!(delete_question("x"), "Delete preset \"x\"?");
    gui.nothing_to_apply();
    assert_eq!(gui.notice_text(), ("No presets yet — save one first".to_owned(), true));
    gui.nothing_to_delete();
    assert_eq!(gui.notice_text(), ("No preset selected".to_owned(), true));
    assert_eq!(gui.selected_preset_name(0), None);
    gui.state.settings.save_preset("b").unwrap();
    gui.state.settings.save_preset("a").unwrap();
    assert_eq!(gui.selected_preset_name(1), Some("b".to_owned()));
    assert_eq!(gui.selected_preset_name(2), None);
    gui.selected = Field::Mode;
    gui.select_presets(true);
    assert_eq!(gui.selected, Field::Mode);
    gui.select_presets(false);
    assert_eq!(gui.selected, Field::Preset);
}

#[test]
fn typed_names_and_times_are_checked() {
    let mut gui = test_gui();
    match gui.prompt_save_preset(" night_2 ") {
        Some(Edit::SavePreset(name)) => assert_eq!(name, "night_2"),
        other => panic!("expected a preset, got {other:?}"),
    }
    assert!(gui.notice.is_none());
    assert!(gui.prompt_save_preset("  ").is_none());
    assert_eq!(gui.notice_text(), ("Preset name must not be empty".to_owned(), true));
    assert!(gui.prompt_save_preset("a b").is_none());
    assert_eq!(
        gui.notice_text(),
        ("Preset names may use letters, digits, - and _".to_owned(), true)
    );
    assert!(gui.check_time("06:15"));
    assert!(!gui.check_time("6:15"));
    assert_eq!(gui.notice_text(), ("Invalid time \"6:15\"; use HH:MM".to_owned(), true));
}

#[test]
fn the_daemon_is_polled() {
    let mut gui = test_gui();
    gui.poll(Err("gone".into()), 0);
    assert!(!gui.backend_available);
    assert_eq!(gui.notice_text(), ("Display backend unavailable: gone".to_owned(), true));
    gui.poll(Ok(test_state(Settings::default(), Some("busy"))), 1000);
    assert!(gui.backend_available);
    assert_eq!(gui.notice_text(), ("Display backend reconnected".to_owned(), false));
    gui.poll(Ok(test_state(Settings::default(), Some("busy"))), 2000);
    assert_eq!(gui.notice_text(), ("Conflict: busy".to_owned(), true));
    gui.poll(Ok(test_state(Settings::default(), Some("busy"))), 3000);
    assert_eq!(gui.notice_text(), ("Conflict: busy".to_owned(), true));
    gui.poll(Ok(test_state(Settings::default(), None)), 4000);
    assert_eq!(gui.notice_text(), ("Conflict: busy".to_owned(), true));
    assert!(gui.clone().notice.is_some());
}

#[test]
fn the_window_shows_the_state() {
    let mut gui = test_gui();
    let (contents, timeline) = refresh_from(&gui, 3, NOON, SKY);
    assert_eq!(contents.daemon, "Daemon · ONLINE");
    assert_eq!(contents.outputs, "Outputs · DP-1  ·  DP-2");
    assert_eq!(contents.warmth, "50%  ·  4500 K");
    assert_eq!(contents.brightness, "90%");
    assert_eq!((contents.warmth_percent, contents.brightness_percent), (50, 90));
    assert_eq!(contents.timeline_title, "Today · day 07:00 · night 21:00");
    assert_eq!(
        contents.timeline_legend,
        "Day begins 07:00   Night begins 21:00   Fade 30 min   Now 12:00"
    );
    assert_eq!(contents.preset_names, vec!["(none)"]);
    assert_eq!(contents.preset_selected, None);
    assert!(contents.timeline_active && contents.schedule_usable && contents.times_usable);
    assert!(!contents.manual_usable && !contents.coordinates_usable && !contents.presets_usable);
    assert_eq!(
        contents.inputs.iter().map(described).collect::<Vec<String>>(),
        vec![
            "on", "on", "presets", "50%", "90%", "choice 0", "0%", "100%", "50%", "90%", "21:00",
            "07:00", "0 degrees", "0 degrees", "30 min",
        ]
    );
    assert!(contents.help.starts_with("<b>Mode.</b> Automatic follows"));
    assert!(!contents.notice_error);
    assert!(timeline.is_some());

    gui.state.settings.save_preset("b").unwrap();
    gui.state.settings.save_preset("a").unwrap();
    gui.state.settings.schedule.timing = ScheduleTiming::Location;
    gui.state.outputs.clear();
    gui.transient = true;
    let contents = refresh_ui(&gui, &None, 3);
    assert_eq!(contents.daemon, "Daemon · TEMPORARY");
    assert_eq!(contents.outputs, "Outputs · No displays detected");
    assert_eq!(contents.preset_names, vec!["a", "b"]);
    assert_eq!(contents.preset_selected, Some(1));
    assert!(contents.coordinates_usable && !contents.times_usable && contents.presets_usable);
    assert_eq!(described(&contents.inputs[Field::Timing.index()]), "choice 1");
    assert_eq!(contents.timeline_title, "Today");
    assert_eq!(contents.timeline_legend, "Schedule times are invalid");

    gui.state.settings.automatic = false;
    let contents = refresh_ui(&gui, &timeline, 0);
    assert_eq!(contents.timeline_title, "Today · inactive");
    assert!(contents.manual_usable && !contents.schedule_usable);
    assert_eq!(contents.preset_selected, Some(0));
}

/// What a control shows, in words.
fn described(shown: &Shown) -> String {
    match shown {
        Shown::Switch(true) => "on".to_owned(),
        Shown::Switch(false) => "off".to_owned(),
        Shown::Presets => "presets".to_owned(),
        Shown::Choice(place) => format!("choice {place}"),
        Shown::Percent(value) => format!("{value}%"),
        Shown::Time(text) => text.clone(),
        Shown::Degrees(angle) => format!("{} degrees", f64::from_bits(angle.bits)),
        Shown::Minutes(minutes) => format!("{minutes} min"),
    }
}

fn angle(degrees: f64) -> Shown {
    Shown::Degrees(Coordinate { bits: degrees.to_bits() })
}

/// Each control but the presets, with a value that it did not show before.
fn inputs() -> Vec<(Field, Shown)> {
    vec![
        (Field::Mode, Shown::Switch(false)),
        (Field::Filter, Shown::Switch(false)),
        (Field::ManualWarmth, Shown::Percent(1)),
        (Field::ManualBrightness, Shown::Percent(12)),
        (Field::Timing, Shown::Choice(1)),
        (Field::DayWarmth, Shown::Percent(3)),
        (Field::DayBrightness, Shown::Percent(14)),
        (Field::NightWarmth, Shown::Percent(5)),
        (Field::NightBrightness, Shown::Percent(16)),
        (Field::NightStart, Shown::Time("22:17".to_owned())),
        (Field::DayStart, Shown::Time("05:18".to_owned())),
        (Field::Latitude, angle(-37.8)),
        (Field::Longitude, angle(144.9)),
        (Field::Transition, Shown::Minutes(19)),
    ]
}

#[test]
fn controls_show_what_they_were_set_to() {
    for (field, value) in inputs() {
        let wanted = described(&value);
        assert_ne!(described(&shown_value(&Settings::default(), field)), wanted);
        let settings = edited(input_edit(field, value).unwrap());
        for other in FIELDS {
            let shown = described(&shown_value(&settings, other));
            let before = described(&shown_value(&Settings::default(), other));
            let by_hand = field_row(field).section == Section::Manual;
            if other == field {
                assert_eq!(shown, wanted);
            } else if by_hand && other == Field::Mode {
                assert_eq!(shown, "off");
            } else if by_hand && other == Field::Filter {
                assert_eq!(shown, "on");
            } else {
                assert_eq!(shown, before);
            }
        }
    }
    assert!(input_edit(Field::Preset, Shown::Presets).is_none());
    assert!(input_edit(Field::Mode, Shown::Percent(1)).is_none());
    match input_edit(Field::Timing, Shown::Choice(7)) {
        Some(Edit::Timing(timing)) => assert_eq!(timing, ScheduleTiming::Fixed),
        other => panic!("expected a timing, got {other:?}"),
    }
}

#[test]
fn inputs_are_taken_in_unless_the_window_is_filled() {
    for (field, value) in inputs() {
        let wanted = described(&value);
        let mut gui = test_gui();
        let edit = gui.take_input(field, value, false).unwrap();
        assert!(gui.notice.is_none());
        let settings = gui.apply_edit(&edit).unwrap();
        assert_eq!(described(&shown_value(&settings, field)), wanted);
    }
    let mut gui = test_gui();
    for (field, value) in inputs() {
        assert!(gui.take_input(field, value, true).is_none());
    }
    assert!(gui.take_input(Field::DayStart, Shown::Time("25:00".to_owned()), true).is_none());
    assert!(gui.notice.is_none());
    for field in [Field::NightStart, Field::DayStart] {
        let mut gui = test_gui();
        assert!(gui.take_input(field, Shown::Time("25:00".to_owned()), false).is_none());
        assert_eq!(gui.notice_text(), ("Invalid time \"25:00\"; use HH:MM".to_owned(), true));
        assert_eq!(gui.state.settings, Settings::default());
    }
}

#[test]
fn buttons_act_on_the_selected_preset() {
    let mut gui = test_gui();
    assert!(gui.apply_selected(0).is_none());
    assert_eq!(gui.notice_text(), ("No presets yet — save one first".to_owned(), true));
    let mut gui = test_gui();
    assert!(gui.delete_selected(0).is_none());
    assert_eq!(gui.notice_text(), ("No preset selected".to_owned(), true));
    let mut gui = test_gui();
    gui.state.settings.save_preset("b").unwrap();
    gui.state.settings.save_preset("a").unwrap();
    match gui.apply_selected(1) {
        Some(Edit::ApplyPreset(name)) => assert_eq!(name, "b"),
        other => panic!("expected a preset, got {other:?}"),
    }
    assert_eq!(gui.delete_selected(0), Some("a".to_owned()));
    assert!(gui.notice.is_none());
    assert_eq!(gui.delete_selected(2), None);
}

#[test]
fn timelines_are_painted_in_bands() {
    let view = TimelineView::from_schedule(&Schedule::default(), NOON, SKY).unwrap();
    let bands = paint_timeline(&view, true);
    assert_eq!(bands.len(), 5);
    assert_eq!(
        bands[1],
        Band { start: 420, end: 450, colour: (95, 80, 15), narrow: true }
    );
    assert_eq!(
        bands[2],
        Band { start: 450, end: 1260, colour: (0, 75, 85), narrow: false }
    );
    assert!(paint_timeline(&view, false).iter().all(|band| band.colour == (45, 45, 45)));
}

#[test]
fn the_tray_follows_the_daemon() {
    let mut tray = WaywarmTray::new(test_state(Settings::default(), None));
    assert_eq!(tray.icon_name(), "weather-clear-night");
    assert_eq!(tray.description(), "Filter on · automatic");
    assert!(!tray.needs_attention() && !tray.should_quit);

    let settings = toggled_settings(test_state(Settings::default(), None));
    assert!(!settings.enabled && settings.automatic);
    tray.finish_toggle(Ok(test_state(settings, Some("busy"))));
    assert_eq!(tray.icon_name(), "weather-clear");
    assert_eq!(tray.description(), "Filter off · automatic\nbusy");
    assert!(tray.needs_attention());

    tray.refresh_from_daemon(None);
    assert_eq!(tray.description(), "Filter off · automatic\ndaemon unreachable");
    tray.finish_toggle(Err("no".into()));
    assert_eq!(tray.description(), "Filter off · automatic\ntoggle failed: no");
    let manual = Settings { automatic: false, ..Settings::default() };
    tray.refresh_from_daemon(Some(test_state(manual, None)));
    assert_eq!(tray.description(), "Filter on · manual");
    tray.quit();
    assert!(tray.should_quit);
}

#[test]
fn the_tray_has_a_menu() {
    let mut tray = WaywarmTray::new(test_state(Settings::default(), None));
    let labels = |tray: &WaywarmTray| {
        tray.menu()
            .iter()
            .map(|item| match item {
                MenuItem::Entry { label, icon, action } => {
                    format!("{label}|{icon}|{}", *action == MenuAction::ToggleFilter)
                }
                MenuItem::Separator => "-".to_owned(),
            })
            .collect::<Vec<String>>()
    };
    assert_eq!(
        labels(&tray),
        vec![
            "Disable filter||true",
            "Open settings|preferences-system|false",
            "-",
            "Quit tray|application-exit|false",
        ]
    );
    tray.enabled = false;
    assert_eq!(labels(&tray)[0], "Enable filter||true");
}
