use waywarm::config::{Levels, Settings};
use waywarm::conflict::{
    competing_gamma_processes, competitor_name, conflict_message, path_file_name, process_id,
    Process, COMPETITOR_NAMES,
};
use waywarm::daemon::{
    check_running, error_response, invalid_request, remove_stale_socket, Action, BackendEnd,
    DaemonState, SocketProbe,
};
use waywarm::gamma::gamma_ramps;
use waywarm::ipc::{
    check_reply, runtime_dir, settings_request, socket_path, state_of, state_request,
};
use waywarm::protocol::{Request, Response, IPC_VERSION};
use waywarm::schedule::{LocalTime, Sky};

const NOON: LocalTime = LocalTime { hour: 12, minute: 0, second: 0 };
const MIDNIGHT: LocalTime = LocalTime { hour: 0, minute: 0, second: 0 };
const SKY: Sky = Sky { dawn: None, dusk: None, offset: 0 };

fn daemon() -> DaemonState {
    DaemonState::new(Settings::default(), Levels::neutral())
}

fn reply(action: Action) -> Response {
    match action {
        Action::Reply(response) => response,
        Action::Store(settings) => panic!("expected a reply, got {settings:?}"),
    }
}

fn refusal(response: Response) -> String {
    match response {
        Response::Error { version, message } => {
            assert_eq!(version, IPC_VERSION);
            message
        }
        Response::State { state, .. } => panic!("expected a refusal, got {state:?}"),
    }
}

#[test]
fn conflict_message_combines_sources() {
    assert!(conflict_message(&[], &[]).is_none());
    let message = conflict_message(&["eDP-1".into()], &["gammastep (pid 1)".into()]).unwrap();
    assert!(message.contains("gammastep"));
    assert!(message.contains("eDP-1"));
}

#[test]
fn competitor_table_covers_common_tools() {
    assert!(COMPETITOR_NAMES.contains(&"gammastep"));
    assert!(COMPETITOR_NAMES.contains(&"wlsunset"));
    assert!(COMPETITOR_NAMES.contains(&"redshift"));
}

#[test]
fn conflicts_are_worded_in_full() {
    let text = |failed: &[&str], competitors: &[&str]| {
        let own = |list: &[&str]| list.iter().map(|s| s.to_string()).collect::<Vec<String>>();
        conflict_message(&own(failed), &own(competitors))
    };
    assert_eq!(
        text(&[], &["a (pid 1)", "b (pid 2)"]),
        Some("another gamma client appears to be running: a (pid 1), b (pid 2)".to_owned())
    );
    assert_eq!(
        text(&["DP-1", "DP-2"], &[]),
        Some("gamma control unavailable on: DP-1, DP-2".to_owned())
    );
    assert_eq!(
        text(&["DP-1"], &["a (pid 1)"]),
        Some(
            "another gamma client appears to be running: a (pid 1); \
             gamma control unavailable on: DP-1"
                .to_owned()
        )
    );
}

#[test]
fn file_names_are_those_of_paths() {
    for path in [
        "", "/", "//", ".", "..", "a", "a/", "a//", "/usr/bin/redshift", "a/.", "a/./", "a/..",
        "a/../b", "./.", "/.", "a/b/./.", ".hidden", "a/.b", "a/...", "...", "../a",
    ] {
        let chars: Vec<char> = path.chars().collect();
        let expected =
            std::path::Path::new(path).file_name().and_then(|name| name.to_str()).map(str::to_owned);
        assert_eq!(path_file_name(&chars), expected, "{path:?}");
    }
}

#[test]
fn competitors_are_known_by_name_or_command_line() {
    let name = |comm: &str, cmdline: Option<&str>| {
        competitor_name(comm, &cmdline.map(str::to_owned))
    };
    assert_eq!(name("gammastep\n", None), Some("gammastep".to_owned()));
    assert_eq!(name("bash\n", None), None);
    assert_eq!(name("python3\n", Some("python3\0/usr/bin/redshift-gtk\0")), Some("redshift-gtk".to_owned()));
    assert_eq!(name("sh\n", Some("sh\0-c\0wlsunset -l 1\0")), None);
    assert_eq!(name("x", Some("/opt/wlsunset/")), Some("wlsunset".to_owned()));
    assert_eq!(name("x", Some("")), None);
    assert_eq!(name("gammastep-x", Some("gammastep-indicator")), Some("gammastep-indicator".to_owned()));
}

#[test]
fn processes_are_listed_once_and_in_order() {
    let process = |directory: &str, comm: Option<&str>, cmdline: Option<&str>| Process {
        directory: directory.to_owned(),
        comm: comm.map(str::to_owned),
        cmdline: cmdline.map(str::to_owned),
    };
    let processes = vec![
        process("9", Some("wlsunset\n"), None),
        process("10", Some("redshift\n"), None),
        process("self", Some("redshift\n"), None),
        process("77", Some("gammastep\n"), None),
        process("12", None, Some("redshift")),
        process("8", Some("bash\n"), Some("bash\0")),
        process("010", Some("redshift\n"), None),
        process("99999999999", Some("redshift\n"), None),
        process("", Some("redshift\n"), None),
    ];
    assert_eq!(
        competing_gamma_processes(&processes, 77),
        vec!["redshift (pid 10)", "wlsunset (pid 9)"]
    );
    assert_eq!(process_id("77", 77), None);
    assert_eq!(process_id("77", 1), Some(77));
    assert_eq!(process_id("+7", 1), None);
}

#[test]
fn outputs_come_and_go() {
    let mut state = daemon();
    assert_eq!(state.add_output(7, 3), Some(3));
    assert_eq!(state.add_output(8, 9), Some(4));
    assert_eq!(state.add_output(7, 3), None);
    assert_eq!(state.runtime_state().outputs, vec!["output-7", "output-8"]);

    state.name_output(7, "eDP-1".to_owned());
    state.name_output(99, "nowhere".to_owned());
    state.fail_output(8, &[]);
    let shown = state.runtime_state();
    assert_eq!(shown.outputs, vec!["eDP-1", "output-8 (gamma control unavailable)"]);
    assert_eq!(shown.conflict, Some("gamma control unavailable on: output-8".to_owned()));
    assert_eq!(shown.backend, "wlr-gamma-control-v1");

    state.refresh_conflict(&["redshift (pid 3)".to_owned()]);
    assert_eq!(
        state.runtime_state().conflict,
        Some(
            "another gamma client appears to be running: redshift (pid 3); \
             gamma control unavailable on: output-8"
                .to_owned()
        )
    );

    assert_eq!(state.remove_output(8, 2), Some(false));
    assert_eq!(state.remove_output(8, 2), None);
    assert_eq!(state.remove_output(7, 3), Some(true));
    assert!(state.outputs().is_empty());
}

#[test]
fn outputs_get_ramps_of_their_size() {
    let mut state = daemon();
    state.add_output(1, 4);
    state.add_output(2, 4);
    state.add_output(3, 4);
    assert!(state.apply_output(1).is_none());
    assert!(state.apply_output(9).is_none());
    state.size_output(1, 4);
    state.size_output(2, 8);
    state.size_output(3, 2);
    state.fail_output(2, &[]);
    let update = state.apply_output(1).unwrap();
    assert_eq!(update.global_name, 1);
    assert_eq!(update.ramps, gamma_ramps(4, Levels::neutral()));
    assert!(state.apply_output(2).is_none());
    let all = state.apply_all();
    assert_eq!(all.iter().map(|update| update.global_name).collect::<Vec<_>>(), vec![1, 3]);
    assert_eq!(all[1].ramps, gamma_ramps(2, Levels::neutral()));
}

#[test]
fn the_daemon_follows_the_schedule() {
    let mut state = daemon();
    assert!(!state.refresh_active(&[], NOON, SKY).unwrap());
    assert_eq!(state.active(), Levels::neutral());
    assert!(state.refresh_active(&[], MIDNIGHT, SKY).unwrap());
    assert_eq!(state.active(), Levels { warmth: 50, brightness: 90 });
    assert!(!state.refresh_active(&[], MIDNIGHT, SKY).unwrap());
}

#[test]
fn requests_are_answered_or_stored() {
    let mut state = daemon();
    match reply(state.handle_request(state_request())) {
        Response::State { version, state } => {
            assert_eq!(version, 4);
            assert_eq!(state.settings, Settings::default());
        }
        other => panic!("expected a state, got {other:?}"),
    }
    assert_eq!(
        refusal(reply(state.handle_request(Request::GetState { version: 3 }))),
        "unsupported IPC protocol version 3 (daemon expects 4); \
         reinstall and restart the Waywarm service"
    );
    assert_eq!(
        refusal(reply(state.handle_request(Request::ReplaceSettings {
            version: 5,
            settings: Settings::default(),
        }))),
        "unsupported IPC protocol version 5 (daemon expects 4); \
         reinstall and restart the Waywarm service"
    );

    let mut wrong = Settings::default();
    wrong.schedule.night_start = "7:00".into();
    assert_eq!(
        refusal(reply(state.handle_request(settings_request(wrong)))),
        "invalid time \"7:00\"; expected HH:MM"
    );
    assert!(state.settings().same(&Settings::default()));

    let mut settings = Settings::default();
    settings.automatic = false;
    settings.manual = Levels { warmth: 66, brightness: 44 };
    let stored = match state.handle_request(settings_request(settings.clone())) {
        Action::Store(settings) => settings,
        Action::Reply(response) => panic!("expected settings, got {response:?}"),
    };
    assert_eq!(stored, settings);
    state.adopt_settings(stored, NOON, SKY).unwrap();
    let shown = state_of(reply(state.handle_request(state_request()))).unwrap();
    assert_eq!(shown.settings, settings);
    assert_eq!((shown.active_warmth, shown.active_brightness), (66, 44));
}

#[test]
fn settings_without_times_are_adopted_but_not_followed() {
    let mut state = daemon();
    let mut settings = Settings::default();
    settings.schedule.day_start = "x".into();
    assert_eq!(
        state.adopt_settings(settings.clone(), NOON, SKY).unwrap_err().message(),
        "invalid time \"x\"; expected HH:MM"
    );
    assert_eq!(state.active(), Levels::neutral());
    assert!(state.settings().same(&settings));
}

#[test]
fn replies_are_read() {
    assert_eq!(
        state_of(error_response("no".to_owned())).unwrap_err().message(),
        "no"
    );
    assert_eq!(refusal(invalid_request("bad json")), "invalid request: bad json");
    assert!(check_reply("{}\n").is_ok());
    assert_eq!(
        check_reply("").unwrap_err().message(),
        "daemon closed the connection without a response"
    );
    assert_eq!(runtime_dir(Some("/run/user/1".to_owned())).unwrap(), "/run/user/1/waywarm");
    assert_eq!(
        socket_path(Some("/run/user/1/".to_owned())).unwrap(),
        "/run/user/1/waywarm/control.sock"
    );
    assert_eq!(socket_path(None).unwrap_err().message(), "XDG_RUNTIME_DIR is not set");
}

#[test]
fn stale_sockets_are_removed() {
    assert!(!remove_stale_socket(SocketProbe::Missing).unwrap());
    assert!(remove_stale_socket(SocketProbe::Refused).unwrap());
    assert_eq!(
        remove_stale_socket(SocketProbe::Answered).unwrap_err().message(),
        "another Waywarm daemon is already running"
    );
    assert_eq!(
        remove_stale_socket(SocketProbe::Failed).unwrap_err().message(),
        "failed to inspect the existing daemon socket"
    );
}

#[test]
fn backends_that_ended_are_reported() {
    let why = |end: BackendEnd| check_running(&end).map_err(|error| error.message());
    assert_eq!(why(BackendEnd::Running), Ok(()));
    assert_eq!(
        why(BackendEnd::Finished),
        Err("temporary display backend stopped unexpectedly".to_owned())
    );
    assert_eq!(
        why(BackendEnd::Failed("no display".to_owned())),
        Err("temporary display backend failed: no display".to_owned())
    );
    assert_eq!(
        why(BackendEnd::Panicked),
        Err("temporary display backend panicked".to_owned())
    );
}
