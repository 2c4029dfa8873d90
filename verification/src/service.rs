//! The optional background service: where it is installed and what the service manager is told.

use vstd::prelude::*;

use crate::config::{failure, path_join, path_joined};
use crate::error::{fault, fault_named, Error, ErrorKind, ErrorView};
use crate::text::{join, joined, joined_texts_stand_in_a_row, optional, texts, trim, trimmed};

verus! {

pub const SERVICE_NAME: &'static str = "waywarm.service";

pub const LEGACY_SERVICE_NAME: &'static str = "simplered.service";

/// What is known of the service.
#[derive(Clone, Copy, Debug, PartialEq, Eq, Structural)]
pub struct ServiceStatus {
    pub installed: bool,
    pub enabled: bool,
    pub active: bool,
}

/// How the installation is shown.
pub open spec fn installation_text(status: ServiceStatus) -> Seq<char> {
    if !status.installed {
        "Not installed"@
    } else if status.enabled {
        "Installed • enabled"@
    } else {
        "Installed • disabled"@
    }
}

impl ServiceStatus {
    /// How the installation is shown.
    pub fn installation_label(self) -> (label: &'static str)
        ensures
            label@ == installation_text(self),
    {
        match (self.installed, self.enabled) {
            (false, _) => "Not installed",
            (true, true) => "Installed • enabled",
            (true, false) => "Installed • disabled",
        }
    }
}

/// One call of the user's service manager: its arguments, and the description under which a
/// failure is reported; without one, a failure is ignored.
#[derive(Debug)]
pub struct SystemctlCall {
    pub arguments: Vec<String>,
    pub on_failure: Option<String>,
}

/// A call with its texts as sequences of characters.
pub struct CallView {
    pub arguments: Seq<Seq<char>>,
    pub on_failure: Option<Seq<char>>,
}

impl View for SystemctlCall {
    type V = CallView;

    open spec fn view(&self) -> CallView {
        CallView { arguments: texts(self.arguments@), on_failure: optional(self.on_failure) }
    }
}

/// A call that has to succeed.
pub open spec fn required_call(arguments: Seq<Seq<char>>) -> CallView {
    CallView { arguments, on_failure: Some("systemctl --user "@ + joined(arguments, " "@)) }
}

/// A call that may fail.
pub open spec fn optional_call(arguments: Seq<Seq<char>>) -> CallView {
    CallView { arguments, on_failure: None }
}

/// A step of installing, running or removing the service.
#[derive(Debug)]
pub enum Step {
    /// Stop the service under its former name.
    RetireLegacy,
    /// Copy the running program to where it is installed.
    InstallBinary,
    /// Write the unit file.
    WriteUnit,
    /// Tell the service manager about the display.
    ImportEnvironment,
    /// Remove the unit file, if it is there.
    RemoveUnit,
    /// Remove the installed program, if it is there.
    RemoveBinary,
    /// Call the service manager.
    Call(SystemctlCall),
}

/// A step with its texts as sequences of characters.
pub enum StepView {
    RetireLegacy,
    InstallBinary,
    WriteUnit,
    ImportEnvironment,
    RemoveUnit,
    RemoveBinary,
    Call(CallView),
}

impl View for Step {
    type V = StepView;

    open spec fn view(&self) -> StepView {
        match *self {
            Step::RetireLegacy => StepView::RetireLegacy,
            Step::InstallBinary => StepView::InstallBinary,
            Step::WriteUnit => StepView::WriteUnit,
            Step::ImportEnvironment => StepView::ImportEnvironment,
            Step::RemoveUnit => StepView::RemoveUnit,
            Step::RemoveBinary => StepView::RemoveBinary,
            Step::Call(call) => StepView::Call(call@),
        }
    }
}

/// Steps with their texts as sequences of characters.
pub open spec fn step_views(steps: Seq<Step>) -> Seq<StepView> {
    Seq::new(steps.len(), |i: int| steps[i]@)
}

fn required(arguments: Vec<String>) -> (call: SystemctlCall)
    ensures
        call@ == required_call(texts(arguments@)),
{
    let mut description: String = "systemctl --user ".to_owned();
    description.append(join(arguments.as_slice(), " ").as_str());
    SystemctlCall { arguments, on_failure: Some(description) }
}

fn call_one(verb: &str) -> (step: Step)
    ensures
        step@ == StepView::Call(required_call(seq![verb@])),
{
    let arguments: Vec<String> = vec![verb.to_owned()];
    proof {
        assert(texts(arguments@) =~= seq![verb@]);
    }
    Step::Call(required(arguments))
}

fn call_service(verb: &str) -> (step: Step)
    ensures
        step@ == StepView::Call(required_call(seq![verb@, SERVICE_NAME@])),
{
    let arguments: Vec<String> = vec![verb.to_owned(), SERVICE_NAME.to_owned()];
    proof {
        assert(texts(arguments@) =~= seq![verb@, SERVICE_NAME@]);
    }
    Step::Call(required(arguments))
}

/// The steps that start, or restart, an installed service.
pub open spec fn running_steps(verb: Seq<char>) -> Seq<StepView> {
    seq![
        StepView::RetireLegacy,
        StepView::ImportEnvironment,
        StepView::Call(required_call(seq![verb, SERVICE_NAME@])),
    ]
}

/// The steps that stop an installed service.
pub open spec fn stop_steps() -> Seq<StepView> {
    seq![StepView::Call(required_call(seq!["stop"@, SERVICE_NAME@]))]
}

/// The steps that install, or update, the service and start it.
pub open spec fn install_steps() -> Seq<StepView> {
    seq![
        StepView::RetireLegacy,
        StepView::InstallBinary,
        StepView::WriteUnit,
        StepView::ImportEnvironment,
        StepView::Call(required_call(seq!["daemon-reload"@])),
        StepView::Call(required_call(seq!["enable"@, SERVICE_NAME@])),
        StepView::Call(required_call(seq!["restart"@, SERVICE_NAME@])),
    ]
}

/// The steps that remove the service.
pub open spec fn uninstall_steps() -> Seq<StepView> {
    seq![
        StepView::Call(optional_call(seq!["disable"@, "--now"@, SERVICE_NAME@])),
        StepView::RemoveUnit,
        StepView::RemoveBinary,
        StepView::Call(required_call(seq!["daemon-reload"@])),
        StepView::Call(optional_call(seq!["reset-failed"@, SERVICE_NAME@])),
    ]
}

/// The installed service.
#[derive(Debug)]
pub struct ServiceManager {
    binary_path: String,
    unit_path: String,
}

/// Where the service is installed.
pub struct ServicePaths {
    pub binary: Seq<char>,
    pub unit: Seq<char>,
}

impl View for ServiceManager {
    type V = ServicePaths;

    closed spec fn view(&self) -> ServicePaths {
        ServicePaths { binary: self.binary_path@, unit: self.unit_path@ }
    }
}

impl Clone for ServiceManager {
    fn clone(&self) -> (copy: Self)
        ensures
            copy@ == self@,
    {
        ServiceManager { binary_path: self.binary_path.clone(), unit_path: self.unit_path.clone() }
    }
}

impl ServiceManager {
    /// The service of a user, given the value of `HOME`.
    pub fn discover(home: Option<String>) -> (manager: Result<Self, Error>)
        ensures
            match home {
                Some(home) => manager is Ok && manager->Ok_0@ == (ServicePaths {
                    binary: path_joined(home@, ".local/bin/waywarm"@),
                    unit: path_joined(home@, ".config/systemd/user/waywarm.service"@),
                }),
                None => failure(manager) == Some(fault(ErrorKind::HomeUnset)),
            },
    {
        match home {
            Some(home) => Ok(
                ServiceManager {
                    binary_path: path_join(home.as_str(), ".local/bin/waywarm"),
                    unit_path: path_join(home.as_str(), ".config/systemd/user/waywarm.service"),
                },
            ),
            None => Err(Error::new(ErrorKind::HomeUnset)),
        }
    }

    /// The status of the service, given which of its two files are there and how the service
    /// manager answers the calls of [`status_calls`].
    pub fn status(
        &self,
        binary_present: bool,
        unit_present: bool,
        enabled: bool,
        active: bool,
    ) -> (status: ServiceStatus)
        ensures
            status == (ServiceStatus {
                installed: binary_present && unit_present,
                enabled,
                active,
            }),
    {
        ServiceStatus { installed: binary_present && unit_present, enabled, active }
    }

    pub fn binary_path(&self) -> (path: &str)
        ensures
            path@ == self@.binary,
    {
        self.binary_path.as_str()
    }

    pub fn unit_path(&self) -> (path: &str)
        ensures
            path@ == self@.unit,
    {
        self.unit_path.as_str()
    }

    /// Checks that the service is installed.
    pub fn require_installed(&self, status: ServiceStatus) -> (r: Result<(), Error>)
        ensures
            failure(r) == (if status.installed {
                None
            } else {
                Some(fault(ErrorKind::NotInstalled))
            }),
    {
        if !status.installed {
            return Err(Error::new(ErrorKind::NotInstalled));
        }
        Ok(())
    }

    /// The steps that install, or update, the service and start it.
    pub fn install_and_start(&self) -> (steps: Vec<Step>)
        ensures
            step_views(steps@) == install_steps(),
    {
        let steps: Vec<Step> = vec![
            Step::RetireLegacy,
            Step::InstallBinary,
            Step::WriteUnit,
            Step::ImportEnvironment,
            call_one("daemon-reload"),
            call_service("enable"),
            call_service("restart"),
        ];
        steps
    }

    /// The steps that start the service.
    pub fn start(&self, status: ServiceStatus) -> (steps: Result<Vec<Step>, Error>)
        ensures
            match steps {
                Ok(s) => status.installed && step_views(s@) == running_steps("start"@),
                Err(error) => !status.installed && error@ == fault(ErrorKind::NotInstalled),
            },
    {
        if let Err(error) = self.require_installed(status) {
            return Err(error);
        }
        let steps: Vec<Step> = vec![
            Step::RetireLegacy,
            Step::ImportEnvironment,
            call_service("start"),
        ];
        proof {
            assert(step_views(steps@) =~= running_steps("start"@));
        }
        Ok(steps)
    }

    /// The steps that stop the service.
    pub fn stop(&self, status: ServiceStatus) -> (steps: Result<Vec<Step>, Error>)
        ensures
            match steps {
                Ok(s) => status.installed && step_views(s@) == stop_steps(),
                Err(error) => !status.installed && error@ == fault(ErrorKind::NotInstalled),
            },
    {
        if let Err(error) = self.require_installed(status) {
            return Err(error);
        }
        let steps: Vec<Step> = vec![call_service("stop")];
        proof {
            assert(step_views(steps@) =~= stop_steps());
        }
        Ok(steps)
    }

    /// The steps that restart the service.
    pub fn restart(&self, status: ServiceStatus) -> (steps: Result<Vec<Step>, Error>)
        ensures
            match steps {
                Ok(s) => status.installed && step_views(s@) == running_steps("restart"@),
                Err(error) => !status.installed && error@ == fault(ErrorKind::NotInstalled),
            },
    {
        if let Err(error) = self.require_installed(status) {
            return Err(error);
        }
        let steps: Vec<Step> = vec![
            Step::RetireLegacy,
            Step::ImportEnvironment,
            call_service("restart"),
        ];
        proof {
            assert(step_views(steps@) =~= running_steps("restart"@));
        }
        Ok(steps)
    }

    /// The steps that remove the service.
    pub fn uninstall(&self) -> (steps: Vec<Step>)
        ensures
            step_views(steps@) == uninstall_steps(),
    {
        let disable: Vec<String> = vec![
            "disable".to_owned(),
            "--now".to_owned(),
            SERVICE_NAME.to_owned(),
        ];
        let reset: Vec<String> = vec!["reset-failed".to_owned(), SERVICE_NAME.to_owned()];
        proof {
            assert(texts(disable@) =~= seq!["disable"@, "--now"@, SERVICE_NAME@]);
            assert(texts(reset@) =~= seq!["reset-failed"@, SERVICE_NAME@]);
        }
        let steps: Vec<Step> = vec![
            Step::Call(SystemctlCall { arguments: disable, on_failure: None }),
            Step::RemoveUnit,
            Step::RemoveBinary,
            call_one("daemon-reload"),
            Step::Call(SystemctlCall { arguments: reset, on_failure: None }),
        ];
        steps
    }

    /// The call that tells the service manager about the display, given which of the variables
    /// `WAYLAND_DISPLAY`, `XDG_CURRENT_DESKTOP` and `XDG_RUNTIME_DIR` are set.
    pub fn import_wayland_environment(
        &self,
        display: bool,
        desktop: bool,
        runtime: bool,
    ) -> (call: Option<SystemctlCall>)
        ensures
            match call {
                Some(c) => (display || desktop || runtime) && c@ == import_call(
                    display,
                    desktop,
                    runtime,
                ),
                None => !display && !desktop && !runtime,
            },
    {
        if !display && !desktop && !runtime {
            return None;
        }
        let mut arguments: Vec<String> = vec!["import-environment".to_owned()];
        if display {
            arguments.push("WAYLAND_DISPLAY".to_owned());
        }
        if desktop {
            arguments.push("XDG_CURRENT_DESKTOP".to_owned());
        }
        if runtime {
            arguments.push("XDG_RUNTIME_DIR".to_owned());
        }
        proof {
            assert(texts(arguments@) =~= import_arguments(display, desktop, runtime));
        }
        Some(
            SystemctlCall {
                arguments,
                on_failure: Some("failed to import the Wayland environment".to_owned()),
            },
        )
    }
}

/// A text in a list, or nothing.
pub open spec fn word_if(present: bool, word: Seq<char>) -> Seq<Seq<char>> {
    if present {
        seq![word]
    } else {
        Seq::empty()
    }
}

/// The arguments that name the variables which are set.
pub open spec fn import_arguments(display: bool, desktop: bool, runtime: bool) -> Seq<Seq<char>> {
    seq!["import-environment"@] + word_if(display, "WAYLAND_DISPLAY"@) + word_if(
        desktop,
        "XDG_CURRENT_DESKTOP"@,
    ) + word_if(runtime, "XDG_RUNTIME_DIR"@)
}

/// The call that tells the service manager about the display.
pub open spec fn import_call(display: bool, desktop: bool, runtime: bool) -> CallView {
    CallView {
        arguments: import_arguments(display, desktop, runtime),
        on_failure: Some("failed to import the Wayland environment"@),
    }
}

/// The calls that ask whether a service is active, and whether it is enabled.
pub fn status_calls(service: &str) -> (calls: (SystemctlCall, SystemctlCall))
    ensures
        calls.0@ == optional_call(seq!["is-active"@, "--quiet"@, service@]),
        calls.1@ == optional_call(seq!["is-enabled"@, "--quiet"@, service@]),
{
    let active: Vec<String> = vec![
        "is-active".to_owned(),
        "--quiet".to_owned(),
        service.to_owned(),
    ];
    let enabled: Vec<String> = vec![
        "is-enabled".to_owned(),
        "--quiet".to_owned(),
        service.to_owned(),
    ];
    proof {
        assert(texts(active@) =~= seq!["is-active"@, "--quiet"@, service@]);
        assert(texts(enabled@) =~= seq!["is-enabled"@, "--quiet"@, service@]);
    }
    (
        SystemctlCall { arguments: active, on_failure: None },
        SystemctlCall { arguments: enabled, on_failure: None },
    )
}

/// The call that stops the service under its former name for good, if it is active or enabled.
pub fn retire_legacy_service(active: bool, enabled: bool) -> (call: Option<SystemctlCall>)
    ensures
        match call {
            Some(c) => (active || enabled) && c@ == (CallView {
                arguments: seq!["disable"@, "--now"@, LEGACY_SERVICE_NAME@],
                on_failure: Some("failed to retire the legacy SimpleRed service"@),
            }),
            None => !active && !enabled,
        },
{
    if !active && !enabled {
        return None;
    }
    let arguments: Vec<String> = vec![
        "disable".to_owned(),
        "--now".to_owned(),
        LEGACY_SERVICE_NAME.to_owned(),
    ];
    proof {
        assert(texts(arguments@) =~= seq!["disable"@, "--now"@, LEGACY_SERVICE_NAME@]);
    }
    Some(
        SystemctlCall {
            arguments,
            on_failure: Some("failed to retire the legacy SimpleRed service".to_owned()),
        },
    )
}

/// What the failure of a call amounts to.
pub open spec fn call_fault(call: CallView, success: bool, stderr: Seq<char>) -> Option<ErrorView> {
    match call.on_failure {
        Some(description) => if success {
            None
        } else {
            Some(fault_named(ErrorKind::CommandFailed, trimmed(stderr), description))
        },
        None => None,
    }
}

/// Checks how a call ended, given whether it succeeded and what it printed as errors.
pub fn ensure_success(call: &SystemctlCall, success: bool, stderr: &str) -> (r: Result<(), Error>)
    ensures
        failure(r) == call_fault(call@, success, stderr@),
{
    match &call.on_failure {
        Some(description) => if success {
            Ok(())
        } else {
            Err(
                Error::named(
                    ErrorKind::CommandFailed,
                    trim(stderr).as_str(),
                    description.as_str(),
                ),
            )
        },
        None => Ok(()),
    }
}

// ── what steps are for ───────────────────────────────────────────────────────

/// Whether a step calls the service manager with some words, and whether it has to succeed.
pub open spec fn calls(step: StepView, words: Seq<Seq<char>>, must_succeed: bool) -> bool {
    step matches StepView::Call(call) && call.arguments == words && (call.on_failure is Some
        <==> must_succeed)
}

/// Installing copies the program and writes the unit, and only then makes the service manager read
/// its units anew; behind that the service is enabled, and started last of all. The service of the
/// former name is gone before, and the display is known before the service starts.
pub proof fn installing_ends_with_the_service_running()
    ensures
        ({
            let steps = install_steps();
            exists|copy: int, write: int, reload: int, enable: int, know: int|
                {
                    &&& 0 < copy < reload && 0 < write < reload < enable < steps.len() - 1
                    &&& 0 < know < steps.len() - 1
                    &&& #[trigger] steps[copy] == StepView::InstallBinary
                    &&& #[trigger] steps[write] == StepView::WriteUnit
                    &&& #[trigger] steps[know] == StepView::ImportEnvironment
                    &&& calls(#[trigger] steps[reload], seq!["daemon-reload"@], true)
                    &&& calls(#[trigger] steps[enable], seq!["enable"@, "waywarm.service"@], true)
                }
        }),
        install_steps()[0] == StepView::RetireLegacy,
        calls(install_steps().last(), seq!["restart"@, "waywarm.service"@], true),
{
    let steps = install_steps();
    assert(steps[1] == StepView::InstallBinary && steps[2] == StepView::WriteUnit && steps[3]
        == StepView::ImportEnvironment);
    assert(calls(steps[4], seq!["daemon-reload"@], true));
    assert(calls(steps[5], seq!["enable"@, "waywarm.service"@], true));
}

/// Starting and restarting end with the service manager told so; the service of the former name is
/// gone before, and the display is known.
pub proof fn starting_ends_with_the_service_told(verb: Seq<char>)
    ensures
        ({
            let steps = running_steps(verb);
            &&& steps[0] == StepView::RetireLegacy
            &&& steps[1] == StepView::ImportEnvironment
            &&& steps.len() == 3
            &&& calls(steps.last(), seq![verb, "waywarm.service"@], true)
        }),
        stop_steps().len() == 1,
        calls(stop_steps()[0], seq!["stop"@, "waywarm.service"@], true),
{
}

/// Removing stops the service for good before its unit and its program are removed, which both are;
/// only then the service manager reads its units anew. That the service cannot be stopped is no
/// reason not to go on.
pub proof fn removing_stops_the_service_first()
    ensures
        ({
            let steps = uninstall_steps();
            &&& calls(steps[0], seq!["disable"@, "--now"@, "waywarm.service"@], false)
            &&& exists|unit: int, program: int, reload: int|
                {
                    &&& 0 < unit < reload < steps.len()
                    &&& 0 < program < reload
                    &&& #[trigger] steps[unit] == StepView::RemoveUnit
                    &&& #[trigger] steps[program] == StepView::RemoveBinary
                    &&& calls(#[trigger] steps[reload], seq!["daemon-reload"@], true)
                }
            &&& forall|i: int|
                0 <= i < steps.len() ==> #[trigger] steps[i] != StepView::InstallBinary && steps[i]
                    != StepView::WriteUnit
        }),
{
    let steps = uninstall_steps();
    assert(steps[1] == StepView::RemoveUnit && steps[2] == StepView::RemoveBinary);
    assert(calls(steps[3], seq!["daemon-reload"@], true));
}

/// A call that has to succeed and does not is reported, with what it was for and what it printed;
/// any other outcome is none.
pub proof fn failed_calls_are_reported(call: CallView, success: bool, stderr: Seq<char>)
    ensures
        call_fault(call, success, stderr) is Some <==> !success && call.on_failure is Some,
        !success && call.on_failure is Some ==> call_fault(call, success, stderr) == Some(
            fault_named(ErrorKind::CommandFailed, trimmed(stderr), call.on_failure->0),
        ),
{
}

/// The service manager is told of those variables of the display that are set.
pub proof fn set_variables_are_told(display: bool, desktop: bool, runtime: bool)
    ensures
        ({
            let words = import_call(display, desktop, runtime).arguments;
            let one = |present: bool|
                if present {
                    1int
                } else {
                    0
                };
            &&& words[0] == "import-environment"@
            &&& words.len() == 1 + one(display) + one(desktop) + one(runtime)
            &&& display ==> words[1] == "WAYLAND_DISPLAY"@
            &&& desktop ==> words[1 + one(display)] == "XDG_CURRENT_DESKTOP"@
            &&& runtime ==> words[1 + one(display) + one(desktop)] == "XDG_RUNTIME_DIR"@
        }),
{
}

/// An installation is shown as there or not, and as enabled or not.
pub proof fn installations_are_told_apart(status: ServiceStatus)
    ensures
        !status.installed ==> installation_text(status) == "Not installed"@,
        status.installed && status.enabled ==> installation_text(status) == "Installed • enabled"@,
        status.installed && !status.enabled ==> installation_text(status)
            == "Installed • disabled"@,
{
}

/// A call that has to succeed tells its command line when it fails, and the one about the display
/// what it was for.
pub proof fn calls_tell_what_they_were_for(
    verb: Seq<char>,
    service: Seq<char>,
    display: bool,
    desktop: bool,
    runtime: bool,
)
    ensures
        required_call(seq![verb]).arguments == seq![verb],
        required_call(seq![verb]).on_failure == Some("systemctl --user "@ + verb),
        required_call(seq![verb, service]).arguments == seq![verb, service],
        required_call(seq![verb, service]).on_failure == Some(
            "systemctl --user "@ + (verb + " "@ + service),
        ),
        optional_call(seq![verb, service]).on_failure is None,
        import_call(display, desktop, runtime).on_failure == Some(
            "failed to import the Wayland environment"@,
        ),
{
    joined_texts_stand_in_a_row(seq![verb], service, " "@);
    joined_texts_stand_in_a_row(seq![verb], verb, " "@);
    assert(seq![verb].push(service) =~= seq![verb, service]);
}

}
