use waywarm::cli::{
    apply_set_options, command_help, daemon_hint, dispatch, exported_preset, format_apply_command,
    format_coordinate, format_status_human, parse_flag_only, parse_preset_name_args,
    parse_set_args, proceed, run, FlagOnly, Next, Plan, SetOptions, SetParse, Start, Task,
};
use waywarm::config::{Levels, Preset, Schedule, ScheduleTiming, Settings};
use waywarm::coordinate::Coordinate;
use waywarm::protocol::RuntimeState;

fn degrees(value: f64) -> Coordinate {
    Coordinate { bits: value.to_bits() }
}

fn words(args: &[&str]) -> Vec<String> {
    args.iter().map(|arg| (*arg).to_owned()).collect()
}

/// The numbers that arguments read as.
fn numbers(args: &[String]) -> Vec<Option<Coordinate>> {
    args.iter().map(|arg| arg.parse::<f64>().ok().map(degrees)).collect()
}

fn parse(args: &[&str], command: &str) -> Result<SetParse, String> {
    let args = words(args);
    parse_set_args(&args, &numbers(&args), command).map_err(|error| error.message())
}

fn options(args: &[&str], command: &str) -> SetOptions {
    match parse(args, command) {
        Ok(SetParse::Options { options, .. }) => options,
        other => panic!("expected options, got {other:?}"),
    }
}

/// How a coordinate is written on a command line.
fn coordinate_text(value: Coordinate) -> String {
    let number = f64::from_bits(value.bits);
    format_coordinate(&format!("{number}"), &format!("{number:.1}"))
}

fn apply_command(preset: &Preset) -> String {
    format_apply_command(
        preset,
        &coordinate_text(preset.schedule.latitude),
        &coordinate_text(preset.schedule.longitude),
    )
}

fn status(state: &RuntimeState) -> String {
    let text = |value: Coordinate| format!("{:.4}", f64::from_bits(value.bits));
    format_status_human(
        state,
        &text(state.settings.schedule.latitude),
        &text(state.settings.schedule.longitude),
    )
}

fn plan(command: &str, args: &[&str]) -> Result<Plan, String> {
    let args = words(args);
    run(command, &args, &numbers(&args)).map_err(|error| error.message())
}

fn task(command: &str, args: &[&str]) -> Task {
    match plan(command, args) {
        Ok(Plan::Query(task)) => task,
        other => panic!("expected a query, got {other:?}"),
    }
}

fn test_state(settings: Settings) -> RuntimeState {
    RuntimeState {
        settings,
        outputs: vec!["eDP-1".into(), "HDMI-A-1".into()],
        backend: "wlr-gamma-control-v1".into(),
        active_warmth: 25,
        active_brightness: 95,
        conflict: None,
    }
}

#[test]
fn parse_set_args_accepts_common_flags() {
    let args = vec![
        "--warmth".into(),
        "40".into(),
        "--brightness".into(),
        "80".into(),
        "--mode".into(),
        "auto".into(),
        "--night-start".into(),
        "22:30".into(),
        "--json".into(),
    ];
    let SetParse::Options { options, json } =
        parse_set_args(&args, &numbers(&args), "set").unwrap()
    else {
        panic!("expected options");
    };
    assert!(json);
    assert_eq!(options.warmth, Some(40));
    assert_eq!(options.brightness, Some(80));
    assert_eq!(options.automatic, Some(true));
    assert_eq!(options.night_start.as_deref(), Some("22:30"));
}

#[test]
fn parse_set_args_rejects_bad_values() {
    assert!(parse(&["--warmth", "200"], "set").is_err());
    assert!(parse(&["--brightness", "5"], "set").is_err());
    assert!(parse(&["--mode", "schedule"], "set").is_err());
    assert!(parse(&["--night-start", "9:00"], "set").is_err());
    assert!(parse(&["--transition", "999"], "set").is_err());
    assert!(parse(&["--unknown"], "set").is_err());
    assert!(matches!(parse(&["--help"], "set").unwrap(), SetParse::Help(_)));
}

#[test]
fn warmth_implies_enabled_manual_mode() {
    let mut settings = Settings { enabled: false, automatic: true, ..Settings::default() };
    let options = SetOptions { warmth: Some(40), ..SetOptions::default() };
    apply_set_options(&mut settings, &options).unwrap();
    assert!(settings.enabled);
    assert!(!settings.automatic);
    assert_eq!(settings.manual.warmth, 40);
}

#[test]
fn enable_preserves_mode() {
    let mut settings = Settings { enabled: false, automatic: true, ..Settings::default() };
    let options = SetOptions { enabled: Some(true), ..SetOptions::default() };
    apply_set_options(&mut settings, &options).unwrap();
    assert!(settings.enabled);
    assert!(settings.automatic);
}

#[test]
fn explicit_mode_wins_after_warmth() {
    let mut settings = Settings::default();
    let options =
        SetOptions { warmth: Some(30), automatic: Some(true), ..SetOptions::default() };
    apply_set_options(&mut settings, &options).unwrap();
    assert!(settings.enabled);
    assert!(settings.automatic);
    assert_eq!(settings.manual.warmth, 30);
}

#[test]
fn schedule_fields_update() {
    let mut settings = Settings::default();
    let options = SetOptions {
        day_warmth: Some(15),
        day_brightness: Some(100),
        night_warmth: Some(70),
        night_brightness: Some(85),
        night_start: Some("22:00".into()),
        day_start: Some("06:30".into()),
        transition: Some(45),
        timing: Some(ScheduleTiming::Location),
        latitude: Some(degrees(48.8566)),
        longitude: Some(degrees(2.3522)),
        ..SetOptions::default()
    };
    apply_set_options(&mut settings, &options).unwrap();
    assert_eq!(
        settings.schedule,
        Schedule {
            night_start: "22:00".into(),
            day_start: "06:30".into(),
            transition_minutes: 45,
            day: Levels { warmth: 15, brightness: 100 },
            night: Levels { warmth: 70, brightness: 85 },
            timing: ScheduleTiming::Location,
            latitude: degrees(48.8566),
            longitude: degrees(2.3522),
        }
    );
}

#[test]
fn format_status_includes_key_labels() {
    let state = test_state(Settings::default());
    let text = status(&state);
    assert!(text.contains("Filter:"));
    assert!(text.contains("Mode:"));
    assert!(text.contains("Active:"));
    assert!(text.contains("Day:"));
    assert!(text.contains("Night:"));
    assert!(text.contains("Presets:"));
    assert!(text.contains("warmth 25%"));
    assert!(text.contains("eDP-1, HDMI-A-1"));
    assert!(text.contains("wlr-gamma-control-v1"));
}

#[test]
fn empty_set_options_detected() {
    assert!(SetOptions::default().is_empty());
    assert!(!SetOptions { warmth: Some(1), ..SetOptions::default() }.is_empty());
}

#[test]
fn format_apply_command_manual_preset() {
    let preset = Preset {
        automatic: false,
        manual: Levels { warmth: 50, brightness: 90 },
        schedule: Schedule::default(),
    };
    assert_eq!(
        apply_command(&preset),
        "waywarm apply --mode manual --warmth 50 --brightness 90"
    );
}

#[test]
fn format_apply_command_automatic_fixed() {
    let preset = Preset {
        automatic: true,
        manual: Levels::default(),
        schedule: Schedule {
            night_start: "21:00".into(),
            day_start: "07:00".into(),
            transition_minutes: 30,
            day: Levels { warmth: 0, brightness: 100 },
            night: Levels { warmth: 50, brightness: 90 },
            timing: ScheduleTiming::Fixed,
            latitude: degrees(0.0),
            longitude: degrees(0.0),
        },
    };
    assert_eq!(
        apply_command(&preset),
        "waywarm apply --mode automatic --day-warmth 0 --day-brightness 100 --night-warmth 50 --night-brightness 90 --night-start 21:00 --day-start 07:00 --transition 30 --timing fixed"
    );
}

#[test]
fn format_apply_command_automatic_location() {
    let preset = Preset {
        automatic: true,
        manual: Levels::default(),
        schedule: Schedule {
            night_start: "21:00".into(),
            day_start: "07:00".into(),
            transition_minutes: 45,
            day: Levels { warmth: 10, brightness: 100 },
            night: Levels { warmth: 55, brightness: 85 },
            timing: ScheduleTiming::Location,
            latitude: degrees(48.8566),
            longitude: degrees(2.3522),
        },
    };
    assert_eq!(
        apply_command(&preset),
        "waywarm apply --mode automatic --day-warmth 10 --day-brightness 100 --night-warmth 55 --night-brightness 85 --night-start 21:00 --day-start 07:00 --transition 45 --timing location --latitude 48.8566 --longitude 2.3522"
    );
}

#[test]
fn format_apply_command_round_trips_through_apply_options() {
    let preset = Preset {
        automatic: true,
        manual: Levels { warmth: 12, brightness: 88 },
        schedule: Schedule {
            night_start: "22:15".into(),
            day_start: "06:45".into(),
            transition_minutes: 20,
            day: Levels { warmth: 5, brightness: 95 },
            night: Levels { warmth: 70, brightness: 80 },
            timing: ScheduleTiming::Location,
            latitude: degrees(-33.8688),
            longitude: degrees(151.2093),
        },
    };
    let command = apply_command(&preset);
    let tokens: Vec<String> = command
        .split_whitespace()
        .skip(2) // waywarm apply
        .map(str::to_owned)
        .collect();
    let SetParse::Options { options, .. } =
        parse_set_args(&tokens, &numbers(&tokens), "apply").unwrap()
    else {
        panic!("expected options");
    };
    let mut settings = Settings::default();
    apply_set_options(&mut settings, &options).unwrap();
    settings.enabled = true;
    assert!(settings.automatic);
    assert_eq!(settings.schedule, preset.schedule);
}

#[test]
fn format_apply_command_manual_round_trips() {
    let preset = Preset {
        automatic: false,
        manual: Levels { warmth: 42, brightness: 75 },
        schedule: Schedule::default(),
    };
    let command = apply_command(&preset);
    let tokens: Vec<String> = command.split_whitespace().skip(2).map(str::to_owned).collect();
    let SetParse::Options { options, .. } =
        parse_set_args(&tokens, &numbers(&tokens), "apply").unwrap()
    else {
        panic!("expected options");
    };
    let mut settings = Settings::default();
    apply_set_options(&mut settings, &options).unwrap();
    assert!(!settings.automatic);
    assert_eq!(settings.manual, preset.manual);
}

#[test]
fn options_report_what_is_wrong_with_them() {
    let why = |args: &[&str]| parse(args, "set").unwrap_err();
    assert_eq!(why(&["--warmth"]), "missing value for --warmth");
    assert_eq!(why(&["--lat"]), "missing value for --latitude");
    assert_eq!(why(&["--warmth", "x"]), "invalid warmth \"x\"; expected an integer");
    assert_eq!(why(&["--warmth", "-1"]), "invalid warmth \"-1\"; expected an integer");
    assert_eq!(why(&["--warmth", "256"]), "invalid warmth \"256\"; expected an integer");
    assert_eq!(why(&["--warmth", "101"]), "warmth must be between 0 and 100");
    assert_eq!(why(&["--day-brightness", "9"]), "day-brightness must be between 10 and 100");
    assert_eq!(
        why(&["--mode", "off"]),
        "invalid mode \"off\"; expected automatic, auto, or manual"
    );
    assert_eq!(why(&["--timing", "moon"]), "invalid timing \"moon\"; expected fixed or location");
    assert_eq!(why(&["--transition", "soon"]), "invalid transition \"soon\"; expected an integer");
    assert_eq!(why(&["--transition", "241"]), "transition must be between 0 and 240 minutes");
    assert_eq!(why(&["--latitude", "north"]), "invalid latitude \"north\"; expected a number");
    assert_eq!(why(&["--latitude", "90.5"]), "latitude must be between -90 and 90");
    assert_eq!(why(&["--longitude", "nan"]), "longitude must be between -180 and 180");
    assert_eq!(why(&["--day-start", "25:00"]), "invalid time \"25:00\"; expected HH:MM");
    assert_eq!(why(&["--colour"]), "unknown option \"--colour\"; use `waywarm set --help`");
    assert_eq!(why(&["40"]), "unexpected argument \"40\"; use `waywarm set --help`");
}

#[test]
fn options_are_read_in_full() {
    let read = options(
        &[
            "--off",
            "--timing",
            "sun",
            "--lat",
            "-12.5",
            "--lon",
            "1e2",
            "--transition",
            "+5",
            "--day-start",
            "06:00",
            "--night-warmth",
            "100",
        ],
        "apply",
    );
    assert_eq!(
        read,
        SetOptions {
            enabled: Some(false),
            timing: Some(ScheduleTiming::Location),
            latitude: Some(degrees(-12.5)),
            longitude: Some(degrees(100.0)),
            transition: Some(5),
            day_start: Some("06:00".into()),
            night_warmth: Some(100),
            ..SetOptions::default()
        }
    );
    // The last of several options counts.
    assert_eq!(options(&["--on", "--warmth", "1", "--warmth", "2"], "set").warmth, Some(2));
    assert_eq!(options(&["--timing", "clock"], "set").timing, Some(ScheduleTiming::Fixed));
}

#[test]
fn changed_settings_are_checked() {
    let mut settings = Settings::default();
    let late = SetOptions { night_start: Some("07:00".into()), ..SetOptions::default() };
    assert_eq!(
        apply_set_options(&mut settings, &late).unwrap_err().message(),
        "day and night start times must differ"
    );
    let mut settings = Settings::default();
    settings.manual.brightness = 5;
    let on = SetOptions { enabled: Some(true), ..SetOptions::default() };
    assert_eq!(
        apply_set_options(&mut settings, &on).unwrap_err().message(),
        "brightness must be between 10 and 100 percent"
    );
}

#[test]
fn status_is_printed_in_full() {
    let mut state = test_state(Settings::default());
    assert_eq!(
        status(&state),
        "Filter:     on\n\
         Mode:       automatic\n\
         Active:     warmth 25% · brightness 95%\n\
         Manual:     warmth 50% · brightness 90%\n\
         Day:        warmth 0% · brightness 100%\n\
         Night:      warmth 50% · brightness 90%\n\
         Schedule:   fixed · night 21:00 · day 07:00 · fade 30m\n\
         Presets:    (none)\n\
         Backend:    wlr-gamma-control-v1\n\
         Outputs:    eDP-1, HDMI-A-1\n"
    );
    state.settings.enabled = false;
    state.settings.automatic = false;
    state.settings.schedule.timing = ScheduleTiming::Location;
    state.settings.schedule.latitude = degrees(-33.86884);
    state.settings.save_preset("b").unwrap();
    state.settings.save_preset("a").unwrap();
    state.outputs.clear();
    state.conflict = Some("busy".into());
    assert_eq!(
        status(&state),
        "Filter:     off\n\
         Mode:       manual\n\
         Active:     warmth 25% · brightness 95%\n\
         Manual:     warmth 50% · brightness 90%\n\
         Day:        warmth 0% · brightness 100%\n\
         Night:      warmth 50% · brightness 90%\n\
         Schedule:   location · -33.8688°, 0.0000° (fallback night 21:00 · day 07:00) · fade 30m\n\
         Presets:    a, b\n\
         Backend:    wlr-gamma-control-v1\n\
         Outputs:    (none)\n\
         Conflict:   busy\n"
    );
}

#[test]
fn coordinates_are_written_with_a_point_or_an_exponent() {
    assert_eq!(coordinate_text(degrees(48.8566)), "48.8566");
    assert_eq!(coordinate_text(degrees(0.0)), "0.0");
    assert_eq!(coordinate_text(degrees(-7.0)), "-7.0");
    assert_eq!(format_coordinate("1e-7", "0.0"), "1e-7");
    assert_eq!(format_coordinate("1E-7", "0.0"), "1E-7");
}

#[test]
fn flags_and_names_are_read() {
    let flags = |args: &[&str], command| {
        parse_flag_only(&words(args), command).map_err(|error| error.message())
    };
    assert!(matches!(flags(&[], "status"), Ok(FlagOnly::Json(false))));
    assert!(matches!(flags(&["--json"], "status"), Ok(FlagOnly::Json(true))));
    match flags(&["--json", "-h", "junk"], "toggle") {
        Ok(FlagOnly::Help(help)) => assert_eq!(help, "Usage: waywarm toggle [--json]"),
        other => panic!("expected help, got {other:?}"),
    }
    assert_eq!(
        flags(&["now"], "enable").unwrap_err(),
        "unexpected argument \"now\" for `enable`"
    );

    let names = |args: &[&str]| {
        parse_preset_name_args(&words(args)).map_err(|error| error.message())
    };
    assert_eq!(names(&["a", "--json"]), Ok(Some(("a".to_owned(), true))));
    assert_eq!(names(&["a"]), Ok(Some(("a".to_owned(), false))));
    assert_eq!(names(&["a", "--help"]), Ok(None));
    assert_eq!(names(&["a", "b"]), Err("unexpected argument \"b\"".to_owned()));
    assert_eq!(names(&["--all"]), Err("unexpected argument \"--all\"".to_owned()));
    assert_eq!(
        names(&["--json"]),
        Err("missing preset name; see `waywarm preset --help`".to_owned())
    );
}

#[test]
fn commands_are_planned() {
    assert!(matches!(task("status", &["--json"]), Task::Status { json: true }));
    assert!(matches!(task("enable", &[]), Task::Enable { enabled: true, json: false }));
    assert!(matches!(task("disable", &[]), Task::Enable { enabled: false, json: false }));
    assert!(matches!(task("toggle", &[]), Task::Toggle { json: false }));
    assert!(matches!(task("set", &["--warmth", "3"]), Task::Change { json: false, .. }));
    assert!(matches!(task("preset", &["list"]), Task::PresetList { json: false }));
    assert!(matches!(task("preset", &["save", "x"]), Task::PresetSave { .. }));
    assert!(matches!(task("preset", &["apply", "x"]), Task::PresetApply { .. }));
    assert!(matches!(task("preset", &["delete", "x"]), Task::PresetDelete { .. }));
    assert!(matches!(task("preset", &["rm", "x"]), Task::PresetDelete { .. }));
    assert!(matches!(plan("export", &["preset", "x"]), Ok(Plan::Export(name)) if name == "x"));
    for (command, args, help) in [
        ("preset", vec![], "preset"),
        ("preset", vec!["--help"], "preset"),
        ("preset", vec!["list", "-h"], "preset"),
        ("preset", vec!["save", "--help"], "preset"),
        ("export", vec![], "export"),
        ("export", vec!["preset", "-h"], "export"),
        ("set", vec!["-h"], "set"),
        ("apply", vec!["--help"], "apply"),
        ("status", vec!["--help"], "status"),
    ] {
        match plan(command, &args) {
            Ok(Plan::Print(text)) => assert_eq!(text, command_help(help)),
            other => panic!("expected help, got {other:?}"),
        }
    }
    for (command, args, error) in [
        ("reboot", vec![], "unknown CLI command \"reboot\"; use --help"),
        ("preset", vec!["rename"], "unknown preset action \"rename\"; use `waywarm preset --help`"),
        ("preset", vec!["list", "x"], "unexpected argument \"x\" for `preset list`"),
        ("export", vec!["all"], "unknown export kind \"all\"; use `waywarm export --help`"),
        ("export", vec!["preset"], "missing preset name; see `waywarm export --help`"),
        (
            "export",
            vec!["preset", "a", "b"],
            "unexpected argument \"b\"; use `waywarm export --help`",
        ),
        (
            "export",
            vec!["preset", "--all"],
            "unexpected argument \"--all\"; use `waywarm export --help`",
        ),
        ("set", vec![], "nothing to change; pass at least one set option (see --help)"),
        ("set", vec!["--json"], "nothing to change; pass at least one set option (see --help)"),
        (
            "apply",
            vec![],
            "nothing to apply; pass at least one option (see `waywarm apply --help`)",
        ),
        (
            "apply",
            vec!["--warmth", "4", "--json"],
            "`--json` is not supported for `apply`; omit it or use `set` against a daemon",
        ),
        ("apply", vec!["--off"], "`apply` keeps the filter on; omit `--off`"),
    ] {
        assert_eq!(plan(command, &args).unwrap_err(), error);
    }
}

#[test]
fn apply_runs_a_session_with_changed_defaults() {
    match plan("apply", &["--mode", "manual", "--warmth", "7"]) {
        Ok(Plan::Session(settings)) => {
            assert!(settings.enabled && !settings.automatic);
            assert_eq!(settings.manual, Levels { warmth: 7, brightness: 90 });
            settings.validate().unwrap();
        }
        other => panic!("expected a session, got {other:?}"),
    }
}

#[test]
fn tasks_go_on_from_the_state_of_the_daemon() {
    let next = |task: Task, state: RuntimeState| {
        proceed(task, state, "1.0000", "2.0000").map_err(|error| error.message())
    };
    let state = || test_state(Settings::default());

    assert!(matches!(next(task("status", &["--json"]), state()), Ok(Next::ShowState(_))));
    match next(task("status", &[]), state()) {
        Ok(Next::Show(text)) => assert_eq!(text, status(&state())),
        other => panic!("expected a text, got {other:?}"),
    }
    assert!(matches!(next(task("enable", &[]), state()), Ok(Next::Finish)));
    assert!(matches!(next(task("enable", &["--json"]), state()), Ok(Next::ShowState(_))));
    match next(task("disable", &[]), state()) {
        Ok(Next::Replace { settings, json }) => {
            assert!(!json && !settings.enabled);
            assert!(Settings { enabled: true, ..settings }.same(&Settings::default()));
        }
        other => panic!("expected settings, got {other:?}"),
    }
    match next(task("toggle", &["--json"]), state()) {
        Ok(Next::Replace { settings, json }) => {
            assert!(json && !settings.enabled);
            match next(task("toggle", &[]), test_state(settings)) {
                Ok(Next::Replace { settings, .. }) => assert_eq!(settings, Settings::default()),
                other => panic!("expected settings, got {other:?}"),
            }
        }
        other => panic!("expected settings, got {other:?}"),
    }
    match next(task("set", &["--warmth", "8"]), state()) {
        Ok(Next::Replace { settings, .. }) => {
            assert_eq!(settings.manual.warmth, 8);
            assert!(!settings.automatic);
        }
        other => panic!("expected settings, got {other:?}"),
    }
    assert_eq!(
        next(task("set", &["--day-start", "21:00"]), state()).unwrap_err(),
        "day and night start times must differ"
    );

    match next(task("preset", &["list"]), state()) {
        Ok(Next::Show(text)) => assert_eq!(text, "(no presets)\n"),
        other => panic!("expected a text, got {other:?}"),
    }
    assert!(matches!(
        next(task("preset", &["list", "--json"]), state()),
        Ok(Next::ShowPresets(_))
    ));
    let saved = match next(task("preset", &["save", "x"]), state()) {
        Ok(Next::Replace { settings, .. }) => settings,
        other => panic!("expected settings, got {other:?}"),
    };
    assert!(saved.presets.contains_key("x"));
    match next(task("preset", &["list"]), test_state(saved.clone())) {
        Ok(Next::Show(text)) => assert_eq!(text, "x\n"),
        other => panic!("expected a text, got {other:?}"),
    }
    assert!(matches!(
        next(task("preset", &["apply", "x"]), test_state(saved.clone())),
        Ok(Next::Replace { .. })
    ));
    match next(task("preset", &["delete", "x"]), test_state(saved)) {
        Ok(Next::Replace { settings, .. }) => assert_eq!(settings, Settings::default()),
        other => panic!("expected settings, got {other:?}"),
    }
    assert_eq!(
        next(task("preset", &["apply", "y"]), state()).unwrap_err(),
        "unknown preset \"y\""
    );
    assert_eq!(
        next(task("preset", &["rm", "y"]), state()).unwrap_err(),
        "unknown preset \"y\""
    );
    assert_eq!(
        next(task("preset", &["save", " "]), state()).unwrap_err(),
        "preset name must not be empty"
    );
}

#[test]
fn presets_are_exported_by_name() {
    let mut settings = Settings::default();
    settings.save_preset("x").unwrap();
    assert_eq!(exported_preset(&settings, "x").unwrap(), Preset::from_settings(&settings));
    assert_eq!(
        exported_preset(&settings, "y").unwrap_err().message(),
        "unknown preset \"y\""
    );
}

#[test]
fn hints_are_left_out_where_they_would_not_help() {
    assert_eq!(
        daemon_hint("no socket"),
        "no socket\nstart the background service with `waywarm daemon`, or open the settings UI first"
    );
    assert_eq!(daemon_hint("client is outdated"), "client is outdated");
    assert_eq!(daemon_hint("unsupported IPC protocol"), "unsupported IPC protocol");
}

#[test]
fn the_program_is_started_by_its_first_argument() {
    let start = |args: &[&str]| dispatch(&words(args)).map_err(|error| error.message());
    assert_eq!(start(&[]), Ok(Start::Settings));
    assert_eq!(start(&["daemon"]), Ok(Start::Service));
    assert_eq!(start(&["--daemon"]), Ok(Start::Daemon));
    for command in ["status", "set", "enable", "disable", "toggle"] {
        assert_eq!(start(&[command, "x"]), Ok(Start::Command));
    }
    for help in ["--help", "-h", "help"] {
        assert_eq!(start(&[help]), Ok(Start::Help));
    }
    assert_eq!(
        start(&["daemon", "x"]),
        Err("unknown argument \"daemon\"; use --help".to_owned())
    );
    assert_eq!(start(&["fly"]), Err("unknown argument \"fly\"; use --help".to_owned()));
}

#[test]
fn help_starts_its_lines_at_the_margin() {
    assert_eq!(command_help("enable"), "Usage: waywarm enable [--json]");
    assert_eq!(command_help("disable"), "Usage: waywarm disable [--json]");
    assert_eq!(command_help("what"), "use waywarm --help");
    for command in ["preset", "export", "apply", "set"] {
        let help = command_help(command);
        assert!(help.starts_with(&format!("Usage: waywarm {command} ")));
        assert!(help.contains("\n\n"));
        assert!(help.lines().all(|line| !line.starts_with(' ')));
    }
    assert!(command_help("set").contains("\n--json                       Print resulting state"));
}
