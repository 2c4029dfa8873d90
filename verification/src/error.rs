//! What can go wrong, and how it is worded.

use vstd::prelude::*;

use crate::config::CONFIG_VERSION;
use crate::text::{decimal, decimal_text, quoted, quoted_text, NumberFault};

verus! {

/// The kinds of failure.
#[derive(Clone, Copy, Debug, PartialEq, Eq, Structural)]
pub enum ErrorKind {
    /// Warmth above one hundred percent.
    WarmthRange,
    /// Brightness outside ten to one hundred percent.
    BrightnessRange,
    /// A transition of more than four hours.
    TransitionRange,
    /// A latitude beyond a pole.
    LatitudeRange,
    /// A longitude beyond the antimeridian.
    LongitudeRange,
    /// Day and night that start together.
    SameStart,
    /// A transition that runs into the next one.
    TransitionTooLong,
    /// Settings of another version.
    ConfigVersion(u32),
    /// Settings that hold a preset with a blank name.
    PresetNameBlank,
    /// Settings that hold a preset with a control character in its name.
    PresetNameControl,
    /// A blank name for a new preset.
    NewPresetNameBlank,
    /// A control character in the name of a new preset.
    NewPresetNameControl,
    /// No preset has the name.
    UnknownPreset,
    /// A text that is not a time of day.
    Time,
    /// A time of day whose hour is not a number.
    Hour(NumberFault),
    /// A time of day whose minute is not a number.
    Minute(NumberFault),
    /// Coordinates that are not on the globe.
    Coordinates,
    /// A day without civil dawn.
    NoDawn,
    /// A day without civil dusk.
    NoDusk,
    /// A day whose dawn and dusk fall into one minute.
    DawnIsDusk,
    /// There is no home directory.
    HomeUnset,
    /// There is no runtime directory.
    RuntimeDirUnset,
    /// The daemon hung up.
    NoReply,
    /// The daemon answered with an error message.
    Refused,
    /// Another daemon holds the socket.
    AlreadyRunning,
    /// The socket of another daemon could not be inspected.
    SocketProbe,
    /// The background service is not installed.
    NotInstalled,
    /// A command of the service manager failed.
    CommandFailed,
    /// The temporary backend ended by itself.
    BackendStopped,
    /// The temporary backend ended with an error.
    BackendFailed,
    /// The temporary backend panicked.
    BackendPanicked,
    /// The temporary backend did not come up.
    BackendNotReady,
    /// The first argument names nothing to run.
    UnknownArgument,
    /// There is no such subcommand.
    UnknownCommand,
    /// A subcommand that takes no such argument.
    UnexpectedForCommand,
    /// An argument too many.
    UnexpectedArgument,
    /// There is no such option.
    UnknownOption,
    /// An argument that no option takes.
    UnexpectedOperand,
    /// Presets have no such action.
    UnknownPresetAction,
    /// There is nothing of that kind to export.
    UnknownExportKind,
    /// A preset is not named.
    MissingPresetName,
    /// An option without its value.
    MissingValue,
    /// A text that names no mode.
    Mode,
    /// A text that is not an integer.
    NotAnInteger,
    /// A percentage below its minimum or above one hundred.
    PercentRange(u8),
    /// A text that names no timing.
    Timing,
    /// A text that is not a number.
    NotANumber,
    /// A latitude option beyond a pole.
    LatitudeOption,
    /// A longitude option beyond the antimeridian.
    LongitudeOption,
    /// No option to set.
    NothingToChange,
    /// No option to apply.
    NothingToApply,
    /// A session that prints no state.
    ApplyJson,
    /// A session that would filter nothing.
    ApplyOff,
}

/// A failure: its kind, the text it is about, the name of what was read, and the preset that it
/// was found in.
#[derive(Debug)]
pub struct Error {
    pub kind: ErrorKind,
    pub value: String,
    pub name: String,
    pub preset: Option<String>,
}

/// A failure with its texts as sequences of characters.
pub struct ErrorView {
    pub kind: ErrorKind,
    pub value: Seq<char>,
    pub name: Seq<char>,
    pub preset: Option<Seq<char>>,
}

impl View for Error {
    type V = ErrorView;

    open spec fn view(&self) -> ErrorView {
        ErrorView {
            kind: self.kind,
            value: self.value@,
            name: self.name@,
            preset: match self.preset {
                Some(name) => Some(name@),
                None => None,
            },
        }
    }
}

/// A failure that speaks of no text.
pub open spec fn fault(kind: ErrorKind) -> ErrorView {
    ErrorView { kind, value: Seq::empty(), name: Seq::empty(), preset: None }
}

/// A failure that speaks of one text.
pub open spec fn fault_about(kind: ErrorKind, value: Seq<char>) -> ErrorView {
    ErrorView { kind, value, name: Seq::empty(), preset: None }
}

/// A failure that speaks of a text read under a name.
pub open spec fn fault_named(kind: ErrorKind, value: Seq<char>, name: Seq<char>) -> ErrorView {
    ErrorView { kind, value, name, preset: None }
}

/// A failure that was found in a preset.
pub open spec fn fault_in_preset(error: ErrorView, preset: Seq<char>) -> ErrorView {
    ErrorView { preset: Some(preset), ..error }
}

/// The wording of a failure, without what caused it.
pub open spec fn headline(error: ErrorView) -> Seq<char> {
    match error.kind {
        ErrorKind::WarmthRange => "warmth must be between 0 and 100 percent"@,
        ErrorKind::BrightnessRange => "brightness must be between 10 and 100 percent"@,
        ErrorKind::TransitionRange => "transition must be between 0 and 240 minutes"@,
        ErrorKind::LatitudeRange => "latitude must be between -90 and 90 degrees"@,
        ErrorKind::LongitudeRange => "longitude must be between -180 and 180 degrees"@,
        ErrorKind::SameStart => "day and night start times must differ"@,
        ErrorKind::TransitionTooLong => "transition is longer than the gap between day and night start times"@,
        ErrorKind::ConfigVersion(n) => "unsupported configuration version "@ + decimal_text(n as int)
            + " (expected "@ + decimal_text(CONFIG_VERSION as int) + ")"@,
        ErrorKind::PresetNameBlank => "preset names must not be empty"@,
        ErrorKind::PresetNameControl => "preset name "@ + quoted_text(error.value) + " contains invalid characters"@,
        ErrorKind::NewPresetNameBlank => "preset name must not be empty"@,
        ErrorKind::NewPresetNameControl => "preset name contains invalid characters"@,
        ErrorKind::UnknownPreset => "unknown preset "@ + quoted_text(error.value),
        ErrorKind::Time => "invalid time "@ + quoted_text(error.value) + "; expected HH:MM"@,
        ErrorKind::Hour(_) => "invalid hour in "@ + quoted_text(error.value),
        ErrorKind::Minute(_) => "invalid minute in "@ + quoted_text(error.value),
        ErrorKind::Coordinates => "invalid latitude/longitude"@,
        ErrorKind::NoDawn => "civil dawn does not occur at this location today"@,
        ErrorKind::NoDusk => "civil dusk does not occur at this location today"@,
        ErrorKind::DawnIsDusk => "civil dawn and dusk coincide"@,
        ErrorKind::HomeUnset => "HOME is not set"@,
        ErrorKind::RuntimeDirUnset => "XDG_RUNTIME_DIR is not set"@,
        ErrorKind::NoReply => "daemon closed the connection without a response"@,
        ErrorKind::Refused => error.value,
        ErrorKind::AlreadyRunning => "another Waywarm daemon is already running"@,
        ErrorKind::SocketProbe => "failed to inspect the existing daemon socket"@,
        ErrorKind::NotInstalled => "the background service is not installed"@,
        ErrorKind::CommandFailed => error.name + ": "@ + error.value,
        ErrorKind::BackendStopped => "temporary display backend stopped unexpectedly"@,
        ErrorKind::BackendFailed => "temporary display backend failed: "@ + error.value,
        ErrorKind::BackendPanicked => "temporary display backend panicked"@,
        ErrorKind::BackendNotReady => "temporary Waywarm backend did not become ready within 3 seconds"@,
        ErrorKind::UnknownArgument => "unknown argument "@ + quoted_text(error.value) + "; use --help"@,
        ErrorKind::UnknownCommand => "unknown CLI command "@ + quoted_text(error.value) + "; use --help"@,
        ErrorKind::UnexpectedForCommand => "unexpected argument "@ + quoted_text(error.value) + " for `"@ + error.name + "`"@,
        ErrorKind::UnexpectedArgument => "unexpected argument "@ + quoted_text(error.value),
        ErrorKind::UnknownOption => "unknown option "@ + quoted_text(error.value) + "; use `waywarm "@ + error.name + " --help`"@,
        ErrorKind::UnexpectedOperand => "unexpected argument "@ + quoted_text(error.value) + "; use `waywarm "@ + error.name + " --help`"@,
        ErrorKind::UnknownPresetAction => "unknown preset action "@ + quoted_text(error.value) + "; use `waywarm preset --help`"@,
        ErrorKind::UnknownExportKind => "unknown export kind "@ + quoted_text(error.value) + "; use `waywarm export --help`"@,
        ErrorKind::MissingPresetName => "missing preset name; see `waywarm "@ + error.name + " --help`"@,
        ErrorKind::MissingValue => "missing value for "@ + error.name,
        ErrorKind::Mode => "invalid mode "@ + quoted_text(error.value) + "; expected automatic, auto, or manual"@,
        ErrorKind::NotAnInteger => "invalid "@ + error.name + " "@ + quoted_text(error.value) + "; expected an integer"@,
        ErrorKind::PercentRange(n) => error.name + " must be between "@ + decimal_text(n as int) + " and 100"@,
        ErrorKind::Timing => "invalid timing "@ + quoted_text(error.value) + "; expected fixed or location"@,
        ErrorKind::NotANumber => "invalid "@ + error.name + " "@ + quoted_text(error.value) + "; expected a number"@,
        ErrorKind::LatitudeOption => "latitude must be between -90 and 90"@,
        ErrorKind::LongitudeOption => "longitude must be between -180 and 180"@,
        ErrorKind::NothingToChange => "nothing to change; pass at least one set option (see --help)"@,
        ErrorKind::NothingToApply => "nothing to apply; pass at least one option (see `waywarm apply --help`)"@,
        ErrorKind::ApplyJson => "`--json` is not supported for `apply`; omit it or use `set` against a daemon"@,
        ErrorKind::ApplyOff => "`apply` keeps the filter on; omit `--off`"@,
    }
}

/// The wording of a fault in a number.
pub open spec fn number_fault_text(fault: NumberFault) -> Seq<char> {
    match fault {
        NumberFault::Empty => "cannot parse integer from empty string"@,
        NumberFault::InvalidDigit => "invalid digit found in string"@,
        NumberFault::TooLarge => "number too large to fit in target type"@,
    }
}

/// The wording of a failure, with the preset that it was found in and with what caused it.
pub open spec fn full_text(error: ErrorView) -> Seq<char> {
    let lead = match error.preset {
        Some(name) => "invalid preset "@ + quoted_text(name) + ": "@,
        None => Seq::empty(),
    };
    let cause = match error.kind {
        ErrorKind::Hour(fault) => ": "@ + number_fault_text(fault),
        ErrorKind::Minute(fault) => ": "@ + number_fault_text(fault),
        _ => Seq::empty(),
    };
    lead + headline(error) + cause
}

impl Error {
    pub fn new(kind: ErrorKind) -> (error: Self)
        ensures
            error@ == fault(kind),
    {
        Error { kind, value: String::new(), name: String::new(), preset: None }
    }

    pub fn about(kind: ErrorKind, value: &str) -> (error: Self)
        ensures
            error@ == fault_about(kind, value@),
    {
        Error { kind, value: value.to_owned(), name: String::new(), preset: None }
    }

    pub fn named(kind: ErrorKind, value: &str, name: &str) -> (error: Self)
        ensures
            error@ == fault_named(kind, value@, name@),
    {
        Error { kind, value: value.to_owned(), name: name.to_owned(), preset: None }
    }

    /// The same failure, found in a preset.
    pub fn in_preset(self, preset: &str) -> (error: Self)
        ensures
            error@ == fault_in_preset(self@, preset@),
    {
        Error { kind: self.kind, value: self.value, name: self.name, preset: Some(preset.to_owned()) }
    }

    /// The wording of the failure, without what caused it.
    fn headline(&self) -> (text: String)
        ensures
            text@ == headline(self@),
    {
        let mut text: String = String::new();
        match self.kind {
            ErrorKind::WarmthRange => {
                text.append("warmth must be between 0 and 100 percent");
            },
            ErrorKind::BrightnessRange => {
                text.append("brightness must be between 10 and 100 percent");
            },
            ErrorKind::TransitionRange => {
                text.append("transition must be between 0 and 240 minutes");
            },
            ErrorKind::LatitudeRange => {
                text.append("latitude must be between -90 and 90 degrees");
            },
            ErrorKind::LongitudeRange => {
                text.append("longitude must be between -180 and 180 degrees");
            },
            ErrorKind::SameStart => {
                text.append("day and night start times must differ");
            },
            ErrorKind::TransitionTooLong => {
                text.append("transition is longer than the gap between day and night start times");
            },
            ErrorKind::ConfigVersion(n) => {
                text.append("unsupported configuration version ");
                text.append(decimal(n as u32).as_str());
                text.append(" (expected ");
                text.append(decimal(CONFIG_VERSION).as_str());
                text.append(")");
            },
            ErrorKind::PresetNameBlank => {
                text.append("preset names must not be empty");
            },
            ErrorKind::PresetNameControl => {
                text.append("preset name ");
                text.append(quoted(self.value.as_str()).as_str());
                text.append(" contains invalid characters");
            },
            ErrorKind::NewPresetNameBlank => {
                text.append("preset name must not be empty");
            },
            ErrorKind::NewPresetNameControl => {
                text.append("preset name contains invalid characters");
            },
            ErrorKind::UnknownPreset => {
                text.append("unknown preset ");
                text.append(quoted(self.value.as_str()).as_str());
            },
            ErrorKind::Time => {
                text.append("invalid time ");
                text.append(quoted(self.value.as_str()).as_str());
                text.append("; expected HH:MM");
            },
            ErrorKind::Hour(_) => {
                text.append("invalid hour in ");
                text.append(quoted(self.value.as_str()).as_str());
            },
            ErrorKind::Minute(_) => {
                text.append("invalid minute in ");
                text.append(quoted(self.value.as_str()).as_str());
            },
            ErrorKind::Coordinates => {
                text.append("invalid latitude/longitude");
            },
            ErrorKind::NoDawn => {
                text.append("civil dawn does not occur at this location today");
            },
            ErrorKind::NoDusk => {
                text.append("civil dusk does not occur at this location today");
            },
            ErrorKind::DawnIsDusk => {
                text.append("civil dawn and dusk coincide");
            },
            ErrorKind::HomeUnset => {
                text.append("HOME is not set");
            },
            ErrorKind::RuntimeDirUnset => {
                text.append("XDG_RUNTIME_DIR is not set");
            },
            ErrorKind::NoReply => {
                text.append("daemon closed the connection without a response");
            },
            ErrorKind::Refused => {
                text.append(self.value.as_str());
            },
            ErrorKind::AlreadyRunning => {
                text.append("another Waywarm daemon is already running");
            },
            ErrorKind::SocketProbe => {
                text.append("failed to inspect the existing daemon socket");
            },
            ErrorKind::NotInstalled => {
                text.append("the background service is not installed");
            },
            ErrorKind::CommandFailed => {
                text.append(self.name.as_str());
                text.append(": ");
                text.append(self.value.as_str());
            },
            ErrorKind::BackendStopped => {
                text.append("temporary display backend stopped unexpectedly");
            },
            ErrorKind::BackendFailed => {
                text.append("temporary display backend failed: ");
                text.append(self.value.as_str());
            },
            ErrorKind::BackendPanicked => {
                text.append("temporary display backend panicked");
            },
            ErrorKind::BackendNotReady => {
                text.append("temporary Waywarm backend did not become ready within 3 seconds");
            },
            ErrorKind::UnknownArgument => {
                text.append("unknown argument ");
                text.append(quoted(self.value.as_str()).as_str());
                text.append("; use --help");
            },
            ErrorKind::UnknownCommand => {
                text.append("unknown CLI command ");
                text.append(quoted(self.value.as_str()).as_str());
                text.append("; use --help");
            },
            ErrorKind::UnexpectedForCommand => {
                text.append("unexpected argument ");
                text.append(quoted(self.value.as_str()).as_str());
                text.append(" for `");
                text.append(self.name.as_str());
                text.append("`");
            },
            ErrorKind::UnexpectedArgument => {
                text.append("unexpected argument ");
                text.append(quoted(self.value.as_str()).as_str());
            },
            ErrorKind::UnknownOption => {
                text.append("unknown option ");
                text.append(quoted(self.value.as_str()).as_str());
                text.append("; use `waywarm ");
                text.append(self.name.as_str());
                text.append(" --help`");
            },
            ErrorKind::UnexpectedOperand => {
                text.append("unexpected argument ");
                text.append(quoted(self.value.as_str()).as_str());
                text.append("; use `waywarm ");
                text.append(self.name.as_str());
                text.append(" --help`");
            },
            ErrorKind::UnknownPresetAction => {
                text.append("unknown preset action ");
                text.append(quoted(self.value.as_str()).as_str());
                text.append("; use `waywarm preset --help`");
            },
            ErrorKind::UnknownExportKind => {
                text.append("unknown export kind ");
                text.append(quoted(self.value.as_str()).as_str());
                text.append("; use `waywarm export --help`");
            },
            ErrorKind::MissingPresetName => {
                text.append("missing preset name; see `waywarm ");
                text.append(self.name.as_str());
                text.append(" --help`");
            },
            ErrorKind::MissingValue => {
                text.append("missing value for ");
                text.append(self.name.as_str());
            },
            ErrorKind::Mode => {
                text.append("invalid mode ");
                text.append(quoted(self.value.as_str()).as_str());
                text.append("; expected automatic, auto, or manual");
            },
            ErrorKind::NotAnInteger => {
                text.append("invalid ");
                text.append(self.name.as_str());
                text.append(" ");
                text.append(quoted(self.value.as_str()).as_str());
                text.append("; expected an integer");
            },
            ErrorKind::PercentRange(n) => {
                text.append(self.name.as_str());
                text.append(" must be between ");
                text.append(decimal(n as u32).as_str());
                text.append(" and 100");
            },
            ErrorKind::Timing => {
                text.append("invalid timing ");
                text.append(quoted(self.value.as_str()).as_str());
                text.append("; expected fixed or location");
            },
            ErrorKind::NotANumber => {
                text.append("invalid ");
                text.append(self.name.as_str());
                text.append(" ");
                text.append(quoted(self.value.as_str()).as_str());
                text.append("; expected a number");
            },
            ErrorKind::LatitudeOption => {
                text.append("latitude must be between -90 and 90");
            },
            ErrorKind::LongitudeOption => {
                text.append("longitude must be between -180 and 180");
            },
            ErrorKind::NothingToChange => {
                text.append("nothing to change; pass at least one set option (see --help)");
            },
            ErrorKind::NothingToApply => {
                text.append("nothing to apply; pass at least one option (see `waywarm apply --help`)");
            },
            ErrorKind::ApplyJson => {
                text.append("`--json` is not supported for `apply`; omit it or use `set` against a daemon");
            },
            ErrorKind::ApplyOff => {
                text.append("`apply` keeps the filter on; omit `--off`");
            },
        }
        assert(text@ =~= headline(self@));
        text
    }

    /// The wording of the failure, with the preset that it was found in and with what caused it.
    pub fn message(&self) -> (text: String)
        ensures
            text@ == full_text(self@),
    {
        let mut text: String = String::new();
        if let Some(name) = &self.preset {
            text.append("invalid preset ");
            text.append(quoted(name.as_str()).as_str());
            text.append(": ");
        }
        text.append(self.headline().as_str());
        match self.kind {
            ErrorKind::Hour(fault) | ErrorKind::Minute(fault) => {
                text.append(": ");
                match fault {
                    NumberFault::Empty => {
                        text.append("cannot parse integer from empty string");
                    },
                    NumberFault::InvalidDigit => {
                        text.append("invalid digit found in string");
                    },
                    NumberFault::TooLarge => {
                        text.append("number too large to fit in target type");
                    },
                }
            },
            _ => {},
        }
        assert(text@ =~= full_text(self@));
        text
    }
}

/// A failure in a preset is told with the name of the preset before it, and otherwise as it is
/// without one.
pub proof fn failures_in_presets_name_them(error: ErrorView, name: Seq<char>)
    ensures
        full_text(fault_in_preset(error, name)) == "invalid preset "@ + quoted_text(name) + ": "@
            + full_text(ErrorView { preset: None, ..error }),
        error.kind !is Hour && error.kind !is Minute && error.preset is None ==> full_text(error)
            == headline(error),
{
    let none = Seq::<char>::empty();
    let lead = "invalid preset "@ + quoted_text(name) + ": "@;
    let plain = ErrorView { preset: None, ..error };
    let cause = match error.kind {
        ErrorKind::Hour(fault) => ": "@ + number_fault_text(fault),
        ErrorKind::Minute(fault) => ": "@ + number_fault_text(fault),
        _ => Seq::empty(),
    };
    assert(full_text(plain) =~= headline(error) + cause);
    assert(headline(plain) == headline(error));
    assert(lead + headline(error) + cause =~= lead + (headline(error) + cause));
    assert(none + headline(error) + none =~= headline(error));
}

/// Failures that are about a text, a name or a number tell it.
pub proof fn failures_tell_what_they_are_about(value: Seq<char>, name: Seq<char>, n: u8, version: u32)
    ensures
        headline(fault_about(ErrorKind::Refused, value)) == value,
        headline(fault_about(ErrorKind::UnknownPreset, value)) == "unknown preset "@ + quoted_text(
            value,
        ),
        headline(fault_about(ErrorKind::Time, value)) == "invalid time "@ + quoted_text(value)
            + "; expected HH:MM"@,
        headline(fault_named(ErrorKind::MissingValue, value, name)) == "missing value for "@ + name,
        headline(fault_named(ErrorKind::CommandFailed, value, name)) == name + ": "@ + value,
        headline(fault_named(ErrorKind::PercentRange(n), value, name)) == name
            + " must be between "@ + decimal_text(n as int) + " and 100"@,
        headline(fault_named(ErrorKind::NotAnInteger, value, name)) == "invalid "@ + name + " "@
            + quoted_text(value) + "; expected an integer"@,
        headline(fault(ErrorKind::ConfigVersion(version))) == "unsupported configuration version "@
            + decimal_text(version as int) + " (expected "@ + decimal_text(1) + ")"@,
{
}

/// A time that is no number tells which part of it is not one, and why.
pub proof fn faults_in_numbers_are_told(value: Seq<char>, why: NumberFault)
    ensures
        full_text(fault_about(ErrorKind::Hour(why), value)) == "invalid hour in "@ + quoted_text(
            value,
        ) + (": "@ + number_fault_text(why)),
        full_text(fault_about(ErrorKind::Minute(why), value)) == "invalid minute in "@ + quoted_text(
            value,
        ) + (": "@ + number_fault_text(why)),
        number_fault_text(NumberFault::Empty) == "cannot parse integer from empty string"@,
        number_fault_text(NumberFault::InvalidDigit) == "invalid digit found in string"@,
        number_fault_text(NumberFault::TooLarge) == "number too large to fit in target type"@,
{
    let none = Seq::<char>::empty();
    assert(none + ("invalid hour in "@ + quoted_text(value)) =~= "invalid hour in "@ + quoted_text(
        value,
    ));
    assert(none + ("invalid minute in "@ + quoted_text(value)) =~= "invalid minute in "@
        + quoted_text(value));
}

}
