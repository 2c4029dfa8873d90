//! The command line: what its arguments mean, and what the commands do and print.

use vstd::prelude::*;

use crate::config::{
    adding_is_lookup_update, applying_keeps_settings_valid, ascending, default_settings,
    deleting_keeps_settings_valid, failure, has_name, levels_fault, lookup, names_of,
    new_preset_fault, parse_time, preset_fault, preset_of, presets_are_found_by_name,
    removing_is_lookup_update, saving_keeps_settings_valid, schedule_fault, settings_fault,
    time_of, with_entry, with_preset, without_name, EntryView, Levels, Preset, PresetView,
    Schedule, ScheduleTiming, ScheduleView, Settings, SettingsView, MAX_TRANSITION_MINUTES,
    MIN_BRIGHTNESS,
};
use crate::coordinate::{Coordinate, ANTIMERIDIAN, POLE};
use crate::error::{fault, fault_about, fault_named, Error, ErrorKind, ErrorView};
use crate::protocol::{RuntimeState, RuntimeView};
use crate::text::{
    contains, copied_option, decimal, decimal_reads_back, decimal_text, has_control, is_blank,
    is_digit, is_flag, is_space, join, joined, occurs_at, occurs_in, optional, parse_number,
    parsed_number, starts_with_dash, texts,
};

verus! {

// ── help ─────────────────────────────────────────────────────────────────────

pub const STATUS_HELP: &'static str = "Usage: waywarm status [--json]";

pub const ENABLE_HELP: &'static str = "Usage: waywarm enable [--json]";

pub const DISABLE_HELP: &'static str = "Usage: waywarm disable [--json]";

pub const TOGGLE_HELP: &'static str = "Usage: waywarm toggle [--json]";

pub const PRESET_HELP: &'static str = "Usage: waywarm preset <action> [name] [--json]\n\
    \n\
    Actions:\n\
    list                 List saved preset names\n\
    save <name>          Save current levels/schedule as a preset\n\
    apply <name>         Apply a saved preset (keeps filter on/off)\n\
    delete <name>        Remove a preset (alias: rm)\n\
    \n\
    Presets store automatic/manual mode, levels, and schedule — not the filter\n\
    enable toggle. Requires a running Waywarm daemon.";

pub const EXPORT_HELP: &'static str = "Usage: waywarm export preset <name>\n\
    \n\
    Print a daemon-free `waywarm apply …` command that reproduces the named\n\
    preset. Reads ~/.config/waywarm/config.toml (no daemon required). Paste the\n\
    line into a compositor config, for example `exec <printed command>` in sway.";

pub const APPLY_HELP: &'static str = "Usage: waywarm apply [options]\n\
    \n\
    Run a foreground gamma session with the given settings. Does not require a\n\
    pre-running daemon and does not rewrite config.toml. Suitable for compositor\n\
    startup (`exec` in sway / i3). Stops on SIGINT/SIGTERM.\n\
    \n\
    Options:\n\
    --mode automatic|manual      Schedule mode (aliases: auto)\n\
    --warmth <0-100>             Manual warmth\n\
    --brightness <10-100>        Manual brightness\n\
    --day-warmth <0-100>         Daytime schedule warmth\n\
    --day-brightness <10-100>    Daytime schedule brightness\n\
    --night-warmth <0-100>       Night schedule warmth\n\
    --night-brightness <10-100>  Night schedule brightness\n\
    --night-start <HH:MM>        Evening transition start (fixed / fallback)\n\
    --day-start <HH:MM>          Morning transition start (fixed / fallback)\n\
    --transition <0-240>         Fade duration in minutes\n\
    --timing fixed|location      Clock times or civil dawn/dusk (aliases: clock, sun)\n\
    --latitude <deg>             Latitude for location timing (alias: --lat)\n\
    --longitude <deg>            Longitude for location timing (alias: --lon)\n\
    \n\
    The filter is always enabled. Conflicts with an already-running Waywarm daemon.";

pub const SET_HELP: &'static str = "Usage: waywarm set [options]\n\
    \n\
    Options:\n\
    --on | --off                 Enable or disable the filter\n\
    --mode automatic|manual      Schedule mode (aliases: auto)\n\
    --warmth <0-100>             Manual warmth (implies enabled + manual)\n\
    --brightness <10-100>        Manual brightness (implies enabled + manual)\n\
    --day-warmth <0-100>         Daytime schedule warmth\n\
    --day-brightness <10-100>    Daytime schedule brightness\n\
    --night-warmth <0-100>       Night schedule warmth\n\
    --night-brightness <10-100>  Night schedule brightness\n\
    --night-start <HH:MM>        Evening transition start (fixed / fallback)\n\
    --day-start <HH:MM>          Morning transition start (fixed / fallback)\n\
    --transition <0-240>         Fade duration in minutes\n\
    --timing fixed|location      Clock times or civil dawn/dusk (aliases: clock, sun)\n\
    --latitude <deg>             Latitude for location timing (alias: --lat)\n\
    --longitude <deg>            Longitude for location timing (alias: --lon)\n\
    --json                       Print resulting state as JSON\n\
    \n\
    Requires a running Waywarm daemon (service or open settings UI).";

pub const OTHER_HELP: &'static str = "use waywarm --help";

pub const MAIN_HELP: &'static str = "\
Waywarm — a wlroots blue-light filter

Usage:
  waywarm                 Open the settings interface
  waywarm daemon          Manage the optional background service
  waywarm status [--json] Show filter state (requires a running daemon)
  waywarm enable|disable|toggle [--json]
  waywarm set [options]   Change settings from scripts
  waywarm --daemon        Internal service process
  waywarm --help          Show this help

Set options:
  --on | --off
  --mode automatic|manual
  --warmth <0-100>  --brightness <10-100>
  --day-warmth <0-100>  --day-brightness <10-100>
  --night-warmth <0-100>  --night-brightness <10-100>
  --night-start <HH:MM>  --day-start <HH:MM>
  --transition <0-240>
  --timing fixed|location  --latitude <deg>  --longitude <deg>
  --json

CLI commands talk to a running daemon. Install the service with
`waywarm daemon`, or keep the settings UI open.";

/// The help of a command.
pub open spec fn help_text(command: Seq<char>) -> Seq<char> {
    if command == "status"@ {
        STATUS_HELP@
    } else if command == "enable"@ {
        ENABLE_HELP@
    } else if command == "disable"@ {
        DISABLE_HELP@
    } else if command == "toggle"@ {
        TOGGLE_HELP@
    } else if command == "preset"@ {
        PRESET_HELP@
    } else if command == "export"@ {
        EXPORT_HELP@
    } else if command == "apply"@ {
        APPLY_HELP@
    } else if command == "set"@ {
        SET_HELP@
    } else {
        OTHER_HELP@
    }
}

/// The help of a command.
pub fn command_help(command: &str) -> (help: String)
    ensures
        help@ == help_text(command@),
{
    if *command == *"status" {
        STATUS_HELP.to_owned()
    } else if *command == *"enable" {
        ENABLE_HELP.to_owned()
    } else if *command == *"disable" {
        DISABLE_HELP.to_owned()
    } else if *command == *"toggle" {
        TOGGLE_HELP.to_owned()
    } else if *command == *"preset" {
        PRESET_HELP.to_owned()
    } else if *command == *"export" {
        EXPORT_HELP.to_owned()
    } else if *command == *"apply" {
        APPLY_HELP.to_owned()
    } else if *command == *"set" {
        SET_HELP.to_owned()
    } else {
        OTHER_HELP.to_owned()
    }
}

// ── options of `set` and `apply` ─────────────────────────────────────────────

/// What an argument of `set` or `apply` stands for.
#[derive(Clone, Copy, Debug, PartialEq, Eq, Structural)]
pub enum Flag {
    Help,
    Json,
    On,
    Off,
    Mode,
    Warmth,
    Brightness,
    DayWarmth,
    DayBrightness,
    NightWarmth,
    NightBrightness,
    NightStart,
    DayStart,
    Transition,
    Timing,
    Latitude,
    Longitude,
}

/// What an argument stands for.
pub open spec fn flag_of(arg: Seq<char>) -> Option<Flag> {
    if arg == "--help"@ || arg == "-h"@ {
        Some(Flag::Help)
    } else if arg == "--json"@ {
        Some(Flag::Json)
    } else if arg == "--on"@ {
        Some(Flag::On)
    } else if arg == "--off"@ {
        Some(Flag::Off)
    } else if arg == "--mode"@ {
        Some(Flag::Mode)
    } else if arg == "--warmth"@ {
        Some(Flag::Warmth)
    } else if arg == "--brightness"@ {
        Some(Flag::Brightness)
    } else if arg == "--day-warmth"@ {
        Some(Flag::DayWarmth)
    } else if arg == "--day-brightness"@ {
        Some(Flag::DayBrightness)
    } else if arg == "--night-warmth"@ {
        Some(Flag::NightWarmth)
    } else if arg == "--night-brightness"@ {
        Some(Flag::NightBrightness)
    } else if arg == "--night-start"@ {
        Some(Flag::NightStart)
    } else if arg == "--day-start"@ {
        Some(Flag::DayStart)
    } else if arg == "--transition"@ {
        Some(Flag::Transition)
    } else if arg == "--timing"@ {
        Some(Flag::Timing)
    } else if arg == "--latitude"@ || arg == "--lat"@ {
        Some(Flag::Latitude)
    } else if arg == "--longitude"@ || arg == "--lon"@ {
        Some(Flag::Longitude)
    } else {
        None
    }
}

/// The name of an option in full.
pub open spec fn flag_name(flag: Flag) -> Seq<char> {
    match flag {
        Flag::Help => "--help"@,
        Flag::Json => "--json"@,
        Flag::On => "--on"@,
        Flag::Off => "--off"@,
        Flag::Mode => "--mode"@,
        Flag::Warmth => "--warmth"@,
        Flag::Brightness => "--brightness"@,
        Flag::DayWarmth => "--day-warmth"@,
        Flag::DayBrightness => "--day-brightness"@,
        Flag::NightWarmth => "--night-warmth"@,
        Flag::NightBrightness => "--night-brightness"@,
        Flag::NightStart => "--night-start"@,
        Flag::DayStart => "--day-start"@,
        Flag::Transition => "--transition"@,
        Flag::Timing => "--timing"@,
        Flag::Latitude => "--latitude"@,
        Flag::Longitude => "--longitude"@,
    }
}

fn read_flag(arg: &str) -> (flag: Option<Flag>)
    ensures
        flag == flag_of(arg@),
{
    if *arg == *"--help" || *arg == *"-h" {
        Some(Flag::Help)
    } else if *arg == *"--json" {
        Some(Flag::Json)
    } else if *arg == *"--on" {
        Some(Flag::On)
    } else if *arg == *"--off" {
        Some(Flag::Off)
    } else if *arg == *"--mode" {
        Some(Flag::Mode)
    } else if *arg == *"--warmth" {
        Some(Flag::Warmth)
    } else if *arg == *"--brightness" {
        Some(Flag::Brightness)
    } else if *arg == *"--day-warmth" {
        Some(Flag::DayWarmth)
    } else if *arg == *"--day-brightness" {
        Some(Flag::DayBrightness)
    } else if *arg == *"--night-warmth" {
        Some(Flag::NightWarmth)
    } else if *arg == *"--night-brightness" {
        Some(Flag::NightBrightness)
    } else if *arg == *"--night-start" {
        Some(Flag::NightStart)
    } else if *arg == *"--day-start" {
        Some(Flag::DayStart)
    } else if *arg == *"--transition" {
        Some(Flag::Transition)
    } else if *arg == *"--timing" {
        Some(Flag::Timing)
    } else if *arg == *"--latitude" || *arg == *"--lat" {
        Some(Flag::Latitude)
    } else if *arg == *"--longitude" || *arg == *"--lon" {
        Some(Flag::Longitude)
    } else {
        None
    }
}

fn full_name(flag: Flag) -> (name: &'static str)
    ensures
        name@ == flag_name(flag),
{
    match flag {
        Flag::Help => "--help",
        Flag::Json => "--json",
        Flag::On => "--on",
        Flag::Off => "--off",
        Flag::Mode => "--mode",
        Flag::Warmth => "--warmth",
        Flag::Brightness => "--brightness",
        Flag::DayWarmth => "--day-warmth",
        Flag::DayBrightness => "--day-brightness",
        Flag::NightWarmth => "--night-warmth",
        Flag::NightBrightness => "--night-brightness",
        Flag::NightStart => "--night-start",
        Flag::DayStart => "--day-start",
        Flag::Transition => "--transition",
        Flag::Timing => "--timing",
        Flag::Latitude => "--latitude",
        Flag::Longitude => "--longitude",
    }
}

/// The changes that options ask for.
#[derive(Debug, PartialEq)]
pub struct SetOptions {
    pub enabled: Option<bool>,
    pub automatic: Option<bool>,
    pub warmth: Option<u8>,
    pub brightness: Option<u8>,
    pub day_warmth: Option<u8>,
    pub day_brightness: Option<u8>,
    pub night_warmth: Option<u8>,
    pub night_brightness: Option<u8>,
    pub night_start: Option<String>,
    pub day_start: Option<String>,
    pub transition: Option<u16>,
    pub timing: Option<ScheduleTiming>,
    pub latitude: Option<Coordinate>,
    pub longitude: Option<Coordinate>,
}

/// Options with their texts as sequences of characters.
pub struct SetOptionsView {
    pub enabled: Option<bool>,
    pub automatic: Option<bool>,
    pub warmth: Option<u8>,
    pub brightness: Option<u8>,
    pub day_warmth: Option<u8>,
    pub day_brightness: Option<u8>,
    pub night_warmth: Option<u8>,
    pub night_brightness: Option<u8>,
    pub night_start: Option<Seq<char>>,
    pub day_start: Option<Seq<char>>,
    pub transition: Option<u16>,
    pub timing: Option<ScheduleTiming>,
    pub latitude: Option<Coordinate>,
    pub longitude: Option<Coordinate>,
}

impl View for SetOptions {
    type V = SetOptionsView;

    open spec fn view(&self) -> SetOptionsView {
        SetOptionsView {
            enabled: self.enabled,
            automatic: self.automatic,
            warmth: self.warmth,
            brightness: self.brightness,
            day_warmth: self.day_warmth,
            day_brightness: self.day_brightness,
            night_warmth: self.night_warmth,
            night_brightness: self.night_brightness,
            night_start: optional(self.night_start),
            day_start: optional(self.day_start),
            transition: self.transition,
            timing: self.timing,
            latitude: self.latitude,
            longitude: self.longitude,
        }
    }
}

/// Options that ask for nothing.
pub open spec fn no_options() -> SetOptionsView {
    SetOptionsView {
        enabled: None,
        automatic: None,
        warmth: None,
        brightness: None,
        day_warmth: None,
        day_brightness: None,
        night_warmth: None,
        night_brightness: None,
        night_start: None,
        day_start: None,
        transition: None,
        timing: None,
        latitude: None,
        longitude: None,
    }
}

impl Default for SetOptions {
    fn default() -> (options: Self)
        ensures
            options@ == no_options(),
    {
        SetOptions {
            enabled: None,
            automatic: None,
            warmth: None,
            brightness: None,
            day_warmth: None,
            day_brightness: None,
            night_warmth: None,
            night_brightness: None,
            night_start: None,
            day_start: None,
            transition: None,
            timing: None,
            latitude: None,
            longitude: None,
        }
    }
}

impl Clone for SetOptions {
    fn clone(&self) -> (copy: Self)
        ensures
            copy@ == self@,
    {
        SetOptions {
            enabled: self.enabled,
            automatic: self.automatic,
            warmth: self.warmth,
            brightness: self.brightness,
            day_warmth: self.day_warmth,
            day_brightness: self.day_brightness,
            night_warmth: self.night_warmth,
            night_brightness: self.night_brightness,
            night_start: copied_option(&self.night_start),
            day_start: copied_option(&self.day_start),
            transition: self.transition,
            timing: self.timing,
            latitude: self.latitude,
            longitude: self.longitude,
        }
    }
}

impl SetOptions {
    /// Whether the options ask for nothing.
    pub fn is_empty(&self) -> (r: bool)
        ensures
            r == (self@ == no_options()),
    {
        self.enabled.is_none() && self.automatic.is_none() && self.warmth.is_none()
            && self.brightness.is_none() && self.day_warmth.is_none()
            && self.day_brightness.is_none() && self.night_warmth.is_none()
            && self.night_brightness.is_none() && self.night_start.is_none()
            && self.day_start.is_none() && self.transition.is_none() && self.timing.is_none()
            && self.latitude.is_none() && self.longitude.is_none()
    }
}

/// What the arguments of `set` or `apply` come to.
#[derive(Debug)]
pub enum SetParse {
    Help(String),
    Options { options: SetOptions, json: bool },
}

/// What arguments come to, with texts as sequences of characters.
pub enum SetParseView {
    Help(Seq<char>),
    Options { options: SetOptionsView, json: bool },
}

impl View for SetParse {
    type V = SetParseView;

    open spec fn view(&self) -> SetParseView {
        match *self {
            SetParse::Help(help) => SetParseView::Help(help@),
            SetParse::Options { options, json } => SetParseView::Options {
                options: options@,
                json,
            },
        }
    }
}

/// Whether a text names automatic mode.
pub open spec fn mode_of(value: Seq<char>) -> Result<bool, ErrorView> {
    if value == "automatic"@ || value == "auto"@ {
        Ok(true)
    } else if value == "manual"@ {
        Ok(false)
    } else {
        Err(fault_about(ErrorKind::Mode, value))
    }
}

/// Reads a mode.
pub fn parse_mode(value: &str) -> (automatic: Result<bool, Error>)
    ensures
        match automatic {
            Ok(a) => mode_of(value@) == Ok::<bool, ErrorView>(a),
            Err(error) => mode_of(value@) == Err::<bool, ErrorView>(error@),
        },
{
    if *value == *"automatic" || *value == *"auto" {
        Ok(true)
    } else if *value == *"manual" {
        Ok(false)
    } else {
        Err(Error::about(ErrorKind::Mode, value))
    }
}

/// The percentage that a text spells.
pub open spec fn percent_of(value: Seq<char>, minimum: u8, name: Seq<char>) -> Result<
    u8,
    ErrorView,
> {
    match parsed_number(value, 255) {
        Err(_) => Err(fault_named(ErrorKind::NotAnInteger, value, name)),
        Ok(n) => if n < minimum || n > 100 {
            Err(fault_named(ErrorKind::PercentRange(minimum), value, name))
        } else {
            Ok(n as u8)
        },
    }
}

/// Reads a percentage.
pub fn parse_percent(value: &str, minimum: u8, name: &str) -> (percent: Result<u8, Error>)
    ensures
        match percent {
            Ok(n) => percent_of(value@, minimum, name@) == Ok::<u8, ErrorView>(n),
            Err(error) => percent_of(value@, minimum, name@) == Err::<u8, ErrorView>(error@),
        },
{
    match parse_number(value, 255) {
        Err(_) => Err(Error::named(ErrorKind::NotAnInteger, value, name)),
        Ok(n) => if n < minimum as u32 || n > 100 {
            Err(Error::named(ErrorKind::PercentRange(minimum), value, name))
        } else {
            Ok(n as u8)
        },
    }
}

/// The length of a transition that a text spells.
pub open spec fn transition_of(value: Seq<char>) -> Result<u16, ErrorView> {
    match parsed_number(value, 65535) {
        Err(_) => Err(fault_named(ErrorKind::NotAnInteger, value, "transition"@)),
        Ok(n) => if n > MAX_TRANSITION_MINUTES {
            Err(fault(ErrorKind::TransitionRange))
        } else {
            Ok(n as u16)
        },
    }
}

/// Reads the length of a transition.
pub fn parse_transition(value: &str) -> (minutes: Result<u16, Error>)
    ensures
        match minutes {
            Ok(n) => transition_of(value@) == Ok::<u16, ErrorView>(n),
            Err(error) => transition_of(value@) == Err::<u16, ErrorView>(error@),
        },
{
    match parse_number(value, 65535) {
        Err(_) => Err(Error::named(ErrorKind::NotAnInteger, value, "transition")),
        Ok(n) => if n > MAX_TRANSITION_MINUTES as u32 {
            Err(Error::new(ErrorKind::TransitionRange))
        } else {
            Ok(n as u16)
        },
    }
}

/// The timing that a text names.
pub open spec fn timing_of(value: Seq<char>) -> Result<ScheduleTiming, ErrorView> {
    if value == "fixed"@ || value == "clock"@ {
        Ok(ScheduleTiming::Fixed)
    } else if value == "location"@ || value == "sun"@ {
        Ok(ScheduleTiming::Location)
    } else {
        Err(fault_about(ErrorKind::Timing, value))
    }
}

/// Reads a timing.
pub fn parse_timing(value: &str) -> (timing: Result<ScheduleTiming, Error>)
    ensures
        match timing {
            Ok(t) => timing_of(value@) == Ok::<ScheduleTiming, ErrorView>(t),
            Err(error) => timing_of(value@) == Err::<ScheduleTiming, ErrorView>(error@),
        },
{
    if *value == *"fixed" || *value == *"clock" {
        Ok(ScheduleTiming::Fixed)
    } else if *value == *"location" || *value == *"sun" {
        Ok(ScheduleTiming::Location)
    } else {
        Err(Error::about(ErrorKind::Timing, value))
    }
}

/// The latitude that a text spells, given the number that it reads as.
pub open spec fn latitude_of(value: Seq<char>, number: Option<Coordinate>) -> Result<
    Coordinate,
    ErrorView,
> {
    match number {
        None => Err(fault_named(ErrorKind::NotANumber, value, "latitude"@)),
        Some(degrees) => if degrees.within_spec(POLE) {
            Ok(degrees)
        } else {
            Err(fault(ErrorKind::LatitudeOption))
        },
    }
}

/// The longitude that a text spells, given the number that it reads as.
pub open spec fn longitude_of(value: Seq<char>, number: Option<Coordinate>) -> Result<
    Coordinate,
    ErrorView,
> {
    match number {
        None => Err(fault_named(ErrorKind::NotANumber, value, "longitude"@)),
        Some(degrees) => if degrees.within_spec(ANTIMERIDIAN) {
            Ok(degrees)
        } else {
            Err(fault(ErrorKind::LongitudeOption))
        },
    }
}

/// Reads a latitude, given the number that the text reads as.
pub fn parse_latitude(value: &str, number: Option<Coordinate>) -> (degrees: Result<
    Coordinate,
    Error,
>)
    ensures
        match degrees {
            Ok(d) => latitude_of(value@, number) == Ok::<Coordinate, ErrorView>(d),
            Err(error) => latitude_of(value@, number) == Err::<Coordinate, ErrorView>(error@),
        },
{
    match number {
        None => Err(Error::named(ErrorKind::NotANumber, value, "latitude")),
        Some(degrees) => if degrees.within(POLE) {
            Ok(degrees)
        } else {
            Err(Error::new(ErrorKind::LatitudeOption))
        },
    }
}

/// Reads a longitude, given the number that the text reads as.
pub fn parse_longitude(value: &str, number: Option<Coordinate>) -> (degrees: Result<
    Coordinate,
    Error,
>)
    ensures
        match degrees {
            Ok(d) => longitude_of(value@, number) == Ok::<Coordinate, ErrorView>(d),
            Err(error) => longitude_of(value@, number) == Err::<Coordinate, ErrorView>(error@),
        },
{
    match number {
        None => Err(Error::named(ErrorKind::NotANumber, value, "longitude")),
        Some(degrees) => if degrees.within(ANTIMERIDIAN) {
            Ok(degrees)
        } else {
            Err(Error::new(ErrorKind::LongitudeOption))
        },
    }
}

/// Options with the value of one more.
pub open spec fn with_option(
    options: SetOptionsView,
    flag: Flag,
    value: Seq<char>,
    number: Option<Coordinate>,
) -> Result<SetOptionsView, ErrorView> {
    match flag {
        Flag::Mode => match mode_of(value) {
            Ok(automatic) => Ok(SetOptionsView { automatic: Some(automatic), ..options }),
            Err(error) => Err(error),
        },
        Flag::Warmth => match percent_of(value, 0, "warmth"@) {
            Ok(n) => Ok(SetOptionsView { warmth: Some(n), ..options }),
            Err(error) => Err(error),
        },
        Flag::Brightness => match percent_of(value, MIN_BRIGHTNESS, "brightness"@) {
            Ok(n) => Ok(SetOptionsView { brightness: Some(n), ..options }),
            Err(error) => Err(error),
        },
        Flag::DayWarmth => match percent_of(value, 0, "day-warmth"@) {
            Ok(n) => Ok(SetOptionsView { day_warmth: Some(n), ..options }),
            Err(error) => Err(error),
        },
        Flag::DayBrightness => match percent_of(value, MIN_BRIGHTNESS, "day-brightness"@) {
            Ok(n) => Ok(SetOptionsView { day_brightness: Some(n), ..options }),
            Err(error) => Err(error),
        },
        Flag::NightWarmth => match percent_of(value, 0, "night-warmth"@) {
            Ok(n) => Ok(SetOptionsView { night_warmth: Some(n), ..options }),
            Err(error) => Err(error),
        },
        Flag::NightBrightness => match percent_of(value, MIN_BRIGHTNESS, "night-brightness"@) {
            Ok(n) => Ok(SetOptionsView { night_brightness: Some(n), ..options }),
            Err(error) => Err(error),
        },
        Flag::NightStart => match time_of(value) {
            Ok(_) => Ok(SetOptionsView { night_start: Some(value), ..options }),
            Err(error) => Err(error),
        },
        Flag::DayStart => match time_of(value) {
            Ok(_) => Ok(SetOptionsView { day_start: Some(value), ..options }),
            Err(error) => Err(error),
        },
        Flag::Transition => match transition_of(value) {
            Ok(n) => Ok(SetOptionsView { transition: Some(n), ..options }),
            Err(error) => Err(error),
        },
        Flag::Timing => match timing_of(value) {
            Ok(timing) => Ok(SetOptionsView { timing: Some(timing), ..options }),
            Err(error) => Err(error),
        },
        Flag::Latitude => match latitude_of(value, number) {
            Ok(degrees) => Ok(SetOptionsView { latitude: Some(degrees), ..options }),
            Err(error) => Err(error),
        },
        Flag::Longitude => match longitude_of(value, number) {
            Ok(degrees) => Ok(SetOptionsView { longitude: Some(degrees), ..options }),
            Err(error) => Err(error),
        },
        _ => Ok(options),
    }
}

fn set_option(
    options: &mut SetOptions,
    flag: Flag,
    value: &str,
    number: Option<Coordinate>,
) -> (r: Result<(), Error>)
    ensures
        match r {
            Ok(_) => with_option(old(options)@, flag, value@, number) == Ok::<
                SetOptionsView,
                ErrorView,
            >(final(options)@),
            Err(error) => with_option(old(options)@, flag, value@, number) == Err::<
                SetOptionsView,
                ErrorView,
            >(error@),
        },
{
    match flag {
        Flag::Mode => match parse_mode(value) {
            Ok(automatic) => options.automatic = Some(automatic),
            Err(error) => return Err(error),
        },
        Flag::Warmth => match parse_percent(value, 0, "warmth") {
            Ok(n) => options.warmth = Some(n),
            Err(error) => return Err(error),
        },
        Flag::Brightness => match parse_percent(value, MIN_BRIGHTNESS, "brightness") {
            Ok(n) => options.brightness = Some(n),
            Err(error) => return Err(error),
        },
        Flag::DayWarmth => match parse_percent(value, 0, "day-warmth") {
            Ok(n) => options.day_warmth = Some(n),
            Err(error) => return Err(error),
        },
        Flag::DayBrightness => match parse_percent(value, MIN_BRIGHTNESS, "day-brightness") {
            Ok(n) => options.day_brightness = Some(n),
            Err(error) => return Err(error),
        },
        Flag::NightWarmth => match parse_percent(value, 0, "night-warmth") {
            Ok(n) => options.night_warmth = Some(n),
            Err(error) => return Err(error),
        },
        Flag::NightBrightness => match parse_percent(value, MIN_BRIGHTNESS, "night-brightness") {
            Ok(n) => options.night_brightness = Some(n),
            Err(error) => return Err(error),
        },
        Flag::NightStart => match parse_time(value) {
            Ok(_) => options.night_start = Some(value.to_owned()),
            Err(error) => return Err(error),
        },
        Flag::DayStart => match parse_time(value) {
            Ok(_) => options.day_start = Some(value.to_owned()),
            Err(error) => return Err(error),
        },
        Flag::Transition => match parse_transition(value) {
            Ok(n) => options.transition = Some(n),
            Err(error) => return Err(error),
        },
        Flag::Timing => match parse_timing(value) {
            Ok(timing) => options.timing = Some(timing),
            Err(error) => return Err(error),
        },
        Flag::Latitude => match parse_latitude(value, number) {
            Ok(degrees) => options.latitude = Some(degrees),
            Err(error) => return Err(error),
        },
        Flag::Longitude => match parse_longitude(value, number) {
            Ok(degrees) => options.longitude = Some(degrees),
            Err(error) => return Err(error),
        },
        _ => {},
    }
    Ok(())
}

/// What arguments come to, from a position on and with the options that were read before it.
/// `numbers` holds, for each argument, the number that it reads as.
#[verifier::opaque]
pub open spec fn options_from(
    args: Seq<Seq<char>>,
    numbers: Seq<Option<Coordinate>>,
    command: Seq<char>,
    index: int,
    options: SetOptionsView,
    json: bool,
) -> Result<SetParseView, ErrorView>
    decreases args.len() - index,
{
    if index >= args.len() {
        Ok(SetParseView::Options { options, json })
    } else {
        match flag_of(args[index]) {
            None => if is_flag(args[index]) {
                Err(fault_named(ErrorKind::UnknownOption, args[index], command))
            } else {
                Err(fault_named(ErrorKind::UnexpectedOperand, args[index], command))
            },
            Some(Flag::Help) => Ok(SetParseView::Help(help_text(command))),
            Some(Flag::Json) => options_from(args, numbers, command, index + 1, options, true),
            Some(Flag::On) => options_from(
                args,
                numbers,
                command,
                index + 1,
                SetOptionsView { enabled: Some(true), ..options },
                json,
            ),
            Some(Flag::Off) => options_from(
                args,
                numbers,
                command,
                index + 1,
                SetOptionsView { enabled: Some(false), ..options },
                json,
            ),
            Some(flag) => if index + 1 >= args.len() {
                Err(fault_named(ErrorKind::MissingValue, ""@, flag_name(flag)))
            } else {
                match with_option(options, flag, args[index + 1], numbers[index + 1]) {
                    Ok(more) => options_from(args, numbers, command, index + 2, more, json),
                    Err(error) => Err(error),
                }
            },
        }
    }
}

/// What the arguments of `set` or `apply` come to.
pub open spec fn options_of(
    args: Seq<Seq<char>>,
    numbers: Seq<Option<Coordinate>>,
    command: Seq<char>,
) -> Result<SetParseView, ErrorView> {
    options_from(args, numbers, command, 0, no_options(), false)
}

/// Reads the arguments of `set` or `apply`. `numbers` holds, for each argument, the number that it
/// reads as.
pub fn parse_set_args(
    args: &[String],
    numbers: &[Option<Coordinate>],
    command: &str,
) -> (parsed: Result<SetParse, Error>)
    requires
        numbers@.len() == args@.len(),
    ensures
        match parsed {
            Ok(p) => options_of(texts(args@), numbers@, command@) == Ok::<SetParseView, ErrorView>(
                p@,
            ),
            Err(error) => options_of(texts(args@), numbers@, command@) == Err::<
                SetParseView,
                ErrorView,
            >(error@),
        },
{
    let mut options: SetOptions = SetOptions::default();
    let mut json: bool = false;
    let mut index: usize = 0;
    let ghost all = texts(args@);
    while index < args.len()
        invariant
            numbers@.len() == args@.len(),
            all == texts(args@),
            index <= args.len(),
            options_of(all, numbers@, command@) == options_from(
                all,
                numbers@,
                command@,
                index as int,
                options@,
                json,
            ),
        decreases args.len() - index,
    {
        let arg: &str = args[index].as_str();
        proof {
            reveal(options_from);
            assert(all[index as int] == arg@);
        }
        match read_flag(arg) {
            None => {
                if starts_with_dash(arg) {
                    return Err(Error::named(ErrorKind::UnknownOption, arg, command));
                }
                return Err(Error::named(ErrorKind::UnexpectedOperand, arg, command));
            },
            Some(Flag::Help) => return Ok(SetParse::Help(command_help(command))),
            Some(Flag::Json) => json = true,
            Some(Flag::On) => options.enabled = Some(true),
            Some(Flag::Off) => options.enabled = Some(false),
            Some(flag) => {
                index = index + 1;
                if index >= args.len() {
                    return Err(Error::named(ErrorKind::MissingValue, "", full_name(flag)));
                }
                proof {
                    assert(all[index as int] == args@[index as int]@);
                }
                if let Err(error) = set_option(
                    &mut options,
                    flag,
                    args[index].as_str(),
                    numbers[index],
                ) {
                    return Err(error);
                }
            },
        }
        index = index + 1;
    }
    proof {
        reveal(options_from);
    }
    Ok(SetParse::Options { options, json })
}

/// A value that may be given, or else the one that was there.
pub open spec fn given_or<T>(given: Option<T>, before: T) -> T {
    match given {
        Some(value) => value,
        None => before,
    }
}

/// A schedule with the changes that options ask for.
pub open spec fn schedule_applied(schedule: ScheduleView, options: SetOptionsView) -> ScheduleView {
    ScheduleView {
        night_start: given_or(options.night_start, schedule.night_start),
        day_start: given_or(options.day_start, schedule.day_start),
        transition_minutes: given_or(options.transition, schedule.transition_minutes),
        day: Levels {
            warmth: given_or(options.day_warmth, schedule.day.warmth),
            brightness: given_or(options.day_brightness, schedule.day.brightness),
        },
        night: Levels {
            warmth: given_or(options.night_warmth, schedule.night.warmth),
            brightness: given_or(options.night_brightness, schedule.night.brightness),
        },
        timing: given_or(options.timing, schedule.timing),
        latitude: given_or(options.latitude, schedule.latitude),
        longitude: given_or(options.longitude, schedule.longitude),
    }
}

/// Settings with the changes that options ask for. Manual levels turn the filter on and switch to
/// manual mode, unless the options say otherwise.
pub open spec fn options_applied(settings: SettingsView, options: SetOptionsView) -> SettingsView {
    let by_hand = options.warmth is Some || options.brightness is Some;
    SettingsView {
        enabled: given_or(options.enabled, by_hand || settings.enabled),
        automatic: given_or(options.automatic, !by_hand && settings.automatic),
        manual: Levels {
            warmth: given_or(options.warmth, settings.manual.warmth),
            brightness: given_or(options.brightness, settings.manual.brightness),
        },
        schedule: schedule_applied(settings.schedule, options),
        ..settings
    }
}

fn pick<T: Copy>(given: Option<T>, before: T) -> (value: T)
    ensures
        value == given_or(given, before),
{
    match given {
        Some(value) => value,
        None => before,
    }
}

fn apply_schedule_options(schedule: &mut Schedule, options: &SetOptions)
    ensures
        final(schedule)@ == schedule_applied(old(schedule)@, options@),
{
    if let Some(night_start) = &options.night_start {
        schedule.night_start = night_start.clone();
    }
    if let Some(day_start) = &options.day_start {
        schedule.day_start = day_start.clone();
    }
    schedule.day.warmth = pick(options.day_warmth, schedule.day.warmth);
    schedule.day.brightness = pick(options.day_brightness, schedule.day.brightness);
    schedule.night.warmth = pick(options.night_warmth, schedule.night.warmth);
    schedule.night.brightness = pick(options.night_brightness, schedule.night.brightness);
    schedule.transition_minutes = pick(options.transition, schedule.transition_minutes);
    schedule.timing = pick(options.timing, schedule.timing);
    schedule.latitude = pick(options.latitude, schedule.latitude);
    schedule.longitude = pick(options.longitude, schedule.longitude);
}

/// Whether options ask for another schedule.
pub open spec fn reschedules(options: SetOptionsView) -> bool {
    options.night_start is Some || options.day_start is Some || options.transition is Some
        || options.timing is Some || options.latitude is Some || options.longitude is Some
}

/// What is wrong with settings after options were applied. The schedule is looked at where the
/// options change it; the levels are, in any case.
pub open spec fn applied_fault(settings: SettingsView, options: SetOptionsView) -> Option<
    ErrorView,
> {
    if levels_fault(settings.manual) is Some {
        levels_fault(settings.manual)
    } else if levels_fault(settings.schedule.day) is Some {
        levels_fault(settings.schedule.day)
    } else if levels_fault(settings.schedule.night) is Some {
        levels_fault(settings.schedule.night)
    } else if reschedules(options) {
        schedule_fault(settings.schedule)
    } else {
        None
    }
}

/// Changes settings as options ask for.
pub fn apply_set_options(settings: &mut Settings, options: &SetOptions) -> (r: Result<(), Error>)
    ensures
        final(settings)@ == options_applied(old(settings)@, options@),
        failure(r) == applied_fault(options_applied(old(settings)@, options@), options@),
{
    // Manual levels turn the filter on and switch to manual mode, but the options for the mode and
    // the switch win over that, so that scripts can set manual levels and still choose the mode.
    let by_hand: bool = options.warmth.is_some() || options.brightness.is_some();
    settings.enabled = pick(options.enabled, by_hand || settings.enabled);
    settings.automatic = pick(options.automatic, !by_hand && settings.automatic);
    settings.manual.warmth = pick(options.warmth, settings.manual.warmth);
    settings.manual.brightness = pick(options.brightness, settings.manual.brightness);
    apply_schedule_options(&mut settings.schedule, options);
    if let Err(error) = settings.manual.validate() {
        return Err(error);
    }
    if let Err(error) = settings.schedule.day.validate() {
        return Err(error);
    }
    if let Err(error) = settings.schedule.night.validate() {
        return Err(error);
    }
    if options.night_start.is_some() || options.day_start.is_some()
        || options.transition.is_some() || options.timing.is_some()
        || options.latitude.is_some() || options.longitude.is_some() {
        return settings.schedule.validate();
    }
    Ok(())
}

// ── arguments of the other commands ──────────────────────────────────────────

/// What the arguments of a command that takes only flags come to.
#[derive(Debug)]
pub enum FlagOnly {
    Json(bool),
    Help(String),
}

/// What flags come to, with texts as sequences of characters.
pub enum FlagOnlyView {
    Json(bool),
    Help(Seq<char>),
}

impl View for FlagOnly {
    type V = FlagOnlyView;

    open spec fn view(&self) -> FlagOnlyView {
        match *self {
            FlagOnly::Json(json) => FlagOnlyView::Json(json),
            FlagOnly::Help(help) => FlagOnlyView::Help(help@),
        }
    }
}

/// What flags come to, from a position on. `command` is how the command is called where an argument
/// is refused, `topic` is what its help is listed under.
pub open spec fn flags_from(
    args: Seq<Seq<char>>,
    command: Seq<char>,
    topic: Seq<char>,
    index: int,
    json: bool,
) -> Result<FlagOnlyView, ErrorView>
    decreases args.len() - index,
{
    if index >= args.len() {
        Ok(FlagOnlyView::Json(json))
    } else if args[index] == "--json"@ {
        flags_from(args, command, topic, index + 1, true)
    } else if args[index] == "--help"@ || args[index] == "-h"@ {
        Ok(FlagOnlyView::Help(help_text(topic)))
    } else {
        Err(fault_named(ErrorKind::UnexpectedForCommand, args[index], command))
    }
}

fn parse_flags(args: &[String], command: &str, topic: &str) -> (flags: Result<FlagOnly, Error>)
    ensures
        match flags {
            Ok(f) => flags_from(texts(args@), command@, topic@, 0, false) == Ok::<
                FlagOnlyView,
                ErrorView,
            >(f@),
            Err(error) => flags_from(texts(args@), command@, topic@, 0, false) == Err::<
                FlagOnlyView,
                ErrorView,
            >(error@),
        },
{
    let mut json: bool = false;
    let mut index: usize = 0;
    let ghost all = texts(args@);
    while index < args.len()
        invariant
            all == texts(args@),
            index <= args.len(),
            flags_from(all, command@, topic@, 0, false) == flags_from(
                all,
                command@,
                topic@,
                index as int,
                json,
            ),
        decreases args.len() - index,
    {
        let arg: &str = args[index].as_str();
        proof {
            assert(all[index as int] == arg@);
        }
        if *arg == *"--json" {
            json = true;
        } else if *arg == *"--help" || *arg == *"-h" {
            return Ok(FlagOnly::Help(command_help(topic)));
        } else {
            return Err(Error::named(ErrorKind::UnexpectedForCommand, arg, command));
        }
        index = index + 1;
    }
    Ok(FlagOnly::Json(json))
}

/// What the arguments of a command that takes only flags come to.
pub open spec fn flags_of(args: Seq<Seq<char>>, command: Seq<char>) -> Result<
    FlagOnlyView,
    ErrorView,
> {
    flags_from(args, command, command, 0, false)
}

/// Reads the arguments of a command that takes only flags.
pub fn parse_flag_only(args: &[String], command: &str) -> (flags: Result<FlagOnly, Error>)
    ensures
        match flags {
            Ok(f) => flags_of(texts(args@), command@) == Ok::<FlagOnlyView, ErrorView>(f@),
            Err(error) => flags_of(texts(args@), command@) == Err::<FlagOnlyView, ErrorView>(
                error@,
            ),
        },
{
    parse_flags(args, command, command)
}

/// What arguments that name a preset come to, from a position on: the name and whether to print the
/// state, or nothing where help was asked for.
pub open spec fn name_from(
    args: Seq<Seq<char>>,
    index: int,
    name: Option<Seq<char>>,
    json: bool,
) -> Result<Option<(Seq<char>, bool)>, ErrorView>
    decreases args.len() - index,
{
    if index >= args.len() {
        match name {
            Some(name) => Ok(Some((name, json))),
            None => Err(fault_named(ErrorKind::MissingPresetName, ""@, "preset"@)),
        }
    } else if args[index] == "--json"@ {
        name_from(args, index + 1, name, true)
    } else if args[index] == "--help"@ || args[index] == "-h"@ {
        Ok(None)
    } else if is_flag(args[index]) || name is Some {
        Err(fault_about(ErrorKind::UnexpectedArgument, args[index]))
    } else {
        name_from(args, index + 1, Some(args[index]), json)
    }
}

/// Reads arguments that name a preset; help was asked for where the result is `None`.
pub fn parse_preset_name_args(args: &[String]) -> (parsed: Result<Option<(String, bool)>, Error>)
    ensures
        match parsed {
            Ok(Some((name, json))) => name_from(texts(args@), 0, None, false) == Ok::<
                Option<(Seq<char>, bool)>,
                ErrorView,
            >(Some((name@, json))),
            Ok(None) => name_from(texts(args@), 0, None, false) == Ok::<
                Option<(Seq<char>, bool)>,
                ErrorView,
            >(None),
            Err(error) => name_from(texts(args@), 0, None, false) == Err::<
                Option<(Seq<char>, bool)>,
                ErrorView,
            >(error@),
        },
{
    let mut name: Option<String> = None;
    let mut json: bool = false;
    let mut index: usize = 0;
    let ghost all = texts(args@);
    while index < args.len()
        invariant
            all == texts(args@),
            index <= args.len(),
            name_from(all, 0, None, false) == name_from(all, index as int, optional(name), json),
        decreases args.len() - index,
    {
        let arg: &str = args[index].as_str();
        proof {
            assert(all[index as int] == arg@);
        }
        if *arg == *"--json" {
            json = true;
        } else if *arg == *"--help" || *arg == *"-h" {
            return Ok(None);
        } else if starts_with_dash(arg) || name.is_some() {
            return Err(Error::about(ErrorKind::UnexpectedArgument, arg));
        } else {
            name = Some(arg.to_owned());
        }
        index = index + 1;
    }
    match name {
        Some(name) => Ok(Some((name, json))),
        None => Err(Error::named(ErrorKind::MissingPresetName, "", "preset")),
    }
}

/// What the arguments of `export preset` come to, from a position on: the name, or nothing where
/// help was asked for.
pub open spec fn export_from(args: Seq<Seq<char>>, index: int, name: Option<Seq<char>>) -> Result<
    Option<Seq<char>>,
    ErrorView,
>
    decreases args.len() - index,
{
    if index >= args.len() {
        match name {
            Some(name) => Ok(Some(name)),
            None => Err(fault_named(ErrorKind::MissingPresetName, ""@, "export"@)),
        }
    } else if args[index] == "--help"@ || args[index] == "-h"@ {
        Ok(None)
    } else if is_flag(args[index]) || name is Some {
        Err(fault_named(ErrorKind::UnexpectedOperand, args[index], "export"@))
    } else {
        export_from(args, index + 1, Some(args[index]))
    }
}

/// Reads the arguments of `export preset`; help was asked for where the result is `None`.
pub fn parse_export_args(args: &[String]) -> (parsed: Result<Option<String>, Error>)
    ensures
        match parsed {
            Ok(name) => export_from(texts(args@), 0, None) == Ok::<Option<Seq<char>>, ErrorView>(
                optional(name),
            ),
            Err(error) => export_from(texts(args@), 0, None) == Err::<
                Option<Seq<char>>,
                ErrorView,
            >(error@),
        },
{
    let mut name: Option<String> = None;
    let mut index: usize = 0;
    let ghost all = texts(args@);
    while index < args.len()
        invariant
            all == texts(args@),
            index <= args.len(),
            export_from(all, 0, None) == export_from(all, index as int, optional(name)),
        decreases args.len() - index,
    {
        let arg: &str = args[index].as_str();
        proof {
            assert(all[index as int] == arg@);
        }
        if *arg == *"--help" || *arg == *"-h" {
            return Ok(None);
        } else if starts_with_dash(arg) || name.is_some() {
            return Err(Error::named(ErrorKind::UnexpectedOperand, arg, "export"));
        } else {
            name = Some(arg.to_owned());
        }
        index = index + 1;
    }
    match name {
        Some(name) => Ok(Some(name)),
        None => Err(Error::named(ErrorKind::MissingPresetName, "", "export")),
    }
}

// ── what is printed ──────────────────────────────────────────────────────────

/// Levels in words.
pub open spec fn levels_text(warmth: u8, brightness: u8) -> Seq<char> {
    "warmth "@ + decimal_text(warmth as int) + "% · brightness "@ + decimal_text(brightness as int)
        + "%"@
}

/// Levels in words.
pub fn format_levels_line(warmth: u8, brightness: u8) -> (text: String)
    ensures
        text@ == levels_text(warmth, brightness),
{
    let mut text: String = "warmth ".to_owned();
    text.append(decimal(warmth as u32).as_str());
    text.append("% · brightness ");
    text.append(decimal(brightness as u32).as_str());
    text.append("%");
    text
}

/// Levels in words.
pub fn format_levels(levels: Levels) -> (text: String)
    ensures
        text@ == levels_text(levels.warmth, levels.brightness),
{
    format_levels_line(levels.warmth, levels.brightness)
}

/// The timing of a schedule in words, given its coordinates with four decimals.
pub open spec fn timing_text(
    schedule: ScheduleView,
    latitude: Seq<char>,
    longitude: Seq<char>,
) -> Seq<char> {
    match schedule.timing {
        ScheduleTiming::Fixed => "fixed · night "@ + schedule.night_start + " · day "@
            + schedule.day_start,
        ScheduleTiming::Location => "location · "@ + latitude + "°, "@ + longitude
            + "° (fallback night "@ + schedule.night_start + " · day "@ + schedule.day_start
            + ")"@,
    }
}

/// Texts in a row, or a word for there being none.
pub open spec fn list_text(list: Seq<Seq<char>>) -> Seq<char> {
    if list.len() == 0 {
        "(none)"@
    } else {
        joined(list, ", "@)
    }
}

/// The daemon's state in words, given the coordinates of its schedule with four decimals.
pub open spec fn status_text(
    state: RuntimeView,
    latitude: Seq<char>,
    longitude: Seq<char>,
) -> Seq<char> {
    let settings = state.settings;
    let filter = if settings.enabled {
        "on"@
    } else {
        "off"@
    };
    let mode = if settings.automatic {
        "automatic"@
    } else {
        "manual"@
    };
    let text = "Filter:     "@ + filter + "\nMode:       "@ + mode + "\nActive:     "@
        + levels_text(state.active_warmth, state.active_brightness) + "\nManual:     "@
        + levels_text(settings.manual.warmth, settings.manual.brightness) + "\nDay:        "@
        + levels_text(settings.schedule.day.warmth, settings.schedule.day.brightness)
        + "\nNight:      "@ + levels_text(
        settings.schedule.night.warmth,
        settings.schedule.night.brightness,
    ) + "\nSchedule:   "@ + timing_text(settings.schedule, latitude, longitude) + " · fade "@
        + decimal_text(settings.schedule.transition_minutes as int) + "m\nPresets:    "@ + list_text(
        names_of(settings.presets),
    ) + "\nBackend:    "@ + state.backend + "\nOutputs:    "@ + list_text(state.outputs) + "\n"@;
    match state.conflict {
        Some(conflict) => text + "Conflict:   "@ + conflict + "\n"@,
        None => text,
    }
}

fn format_list(list: &Vec<String>) -> (text: String)
    ensures
        text@ == list_text(texts(list@)),
{
    if list.len() == 0 {
        "(none)".to_owned()
    } else {
        join(list.as_slice(), ", ")
    }
}

fn format_timing(schedule: &Schedule, latitude: &str, longitude: &str) -> (text: String)
    ensures
        text@ == timing_text(schedule@, latitude@, longitude@),
{
    match schedule.timing {
        ScheduleTiming::Fixed => {
            let mut text: String = "fixed · night ".to_owned();
            text.append(schedule.night_start.as_str());
            text.append(" · day ");
            text.append(schedule.day_start.as_str());
            text
        },
        ScheduleTiming::Location => {
            let mut text: String = "location · ".to_owned();
            text.append(latitude);
            text.append("°, ");
            text.append(longitude);
            text.append("° (fallback night ");
            text.append(schedule.night_start.as_str());
            text.append(" · day ");
            text.append(schedule.day_start.as_str());
            text.append(")");
            text
        },
    }
}

/// The daemon's state in words, given the coordinates of its schedule with four decimals.
pub fn format_status_human(state: &RuntimeState, latitude: &str, longitude: &str) -> (text: String)
    ensures
        text@ == status_text(state@, latitude@, longitude@),
{
    let settings: &Settings = &state.settings;
    let mut text: String = "Filter:     ".to_owned();
    text.append(
        if settings.enabled {
            "on"
        } else {
            "off"
        },
    );
    text.append("\nMode:       ");
    text.append(
        if settings.automatic {
            "automatic"
        } else {
            "manual"
        },
    );
    text.append("\nActive:     ");
    text.append(format_levels_line(state.active_warmth, state.active_brightness).as_str());
    text.append("\nManual:     ");
    text.append(format_levels(settings.manual).as_str());
    text.append("\nDay:        ");
    text.append(format_levels(settings.schedule.day).as_str());
    text.append("\nNight:      ");
    text.append(format_levels(settings.schedule.night).as_str());
    text.append("\nSchedule:   ");
    text.append(format_timing(&settings.schedule, latitude, longitude).as_str());
    text.append(" · fade ");
    text.append(decimal(settings.schedule.transition_minutes as u32).as_str());
    text.append("m\nPresets:    ");
    text.append(format_list(&settings.presets.names()).as_str());
    text.append("\nBackend:    ");
    text.append(state.backend.as_str());
    text.append("\nOutputs:    ");
    text.append(format_list(&state.outputs).as_str());
    text.append("\n");
    if let Some(conflict) = &state.conflict {
        text.append("Conflict:   ");
        text.append(conflict.as_str());
        text.append("\n");
    }
    text
}

/// How a coordinate is written on a command line, given how it is written as it stands and with one
/// decimal: with a decimal point or an exponent in any case.
pub fn format_coordinate(plain: &str, with_decimal: &str) -> (text: String)
    ensures
        text@ == (if occurs_in("."@, plain@) || occurs_in("e"@, plain@) || occurs_in(
            "E"@,
            plain@,
        ) {
            plain@
        } else {
            with_decimal@
        }),
{
    if contains(plain, ".") || contains(plain, "e") || contains(plain, "E") {
        plain.to_owned()
    } else {
        with_decimal.to_owned()
    }
}

/// The options that bring a preset about, given how its coordinates are written.
pub open spec fn option_words(
    preset: PresetView,
    latitude: Seq<char>,
    longitude: Seq<char>,
) -> Seq<Seq<char>> {
    let schedule = preset.schedule;
    if preset.automatic {
        let words = seq![
            "--mode"@,
            "automatic"@,
            "--day-warmth"@,
            decimal_text(schedule.day.warmth as int),
            "--day-brightness"@,
            decimal_text(schedule.day.brightness as int),
            "--night-warmth"@,
            decimal_text(schedule.night.warmth as int),
            "--night-brightness"@,
            decimal_text(schedule.night.brightness as int),
            "--night-start"@,
            schedule.night_start,
            "--day-start"@,
            schedule.day_start,
            "--transition"@,
            decimal_text(schedule.transition_minutes as int),
            "--timing"@,
        ];
        match schedule.timing {
            ScheduleTiming::Fixed => words + seq!["fixed"@],
            ScheduleTiming::Location => words + seq![
                "location"@,
                "--latitude"@,
                latitude,
                "--longitude"@,
                longitude,
            ],
        }
    } else {
        seq![
            "--mode"@,
            "manual"@,
            "--warmth"@,
            decimal_text(preset.manual.warmth as int),
            "--brightness"@,
            decimal_text(preset.manual.brightness as int),
        ]
    }
}

/// The words of the command that runs a preset without a daemon.
pub open spec fn apply_words(
    preset: PresetView,
    latitude: Seq<char>,
    longitude: Seq<char>,
) -> Seq<Seq<char>> {
    seq!["waywarm"@, "apply"@] + option_words(preset, latitude, longitude)
}

/// The command that runs a preset without a daemon, given how its coordinates are written.
pub fn format_apply_command(preset: &Preset, latitude: &str, longitude: &str) -> (command: String)
    ensures
        command@ == joined(apply_words(preset@, latitude@, longitude@), " "@),
{
    let schedule: &Schedule = &preset.schedule;
    let mut parts: Vec<String> = vec!["waywarm".to_owned(), "apply".to_owned()];
    if preset.automatic {
        parts.push("--mode".to_owned());
        parts.push("automatic".to_owned());
        parts.push("--day-warmth".to_owned());
        parts.push(decimal(schedule.day.warmth as u32));
        parts.push("--day-brightness".to_owned());
        parts.push(decimal(schedule.day.brightness as u32));
        parts.push("--night-warmth".to_owned());
        parts.push(decimal(schedule.night.warmth as u32));
        parts.push("--night-brightness".to_owned());
        parts.push(decimal(schedule.night.brightness as u32));
        parts.push("--night-start".to_owned());
        parts.push(schedule.night_start.clone());
        parts.push("--day-start".to_owned());
        parts.push(schedule.day_start.clone());
        parts.push("--transition".to_owned());
        parts.push(decimal(schedule.transition_minutes as u32));
        parts.push("--timing".to_owned());
        match schedule.timing {
            ScheduleTiming::Fixed => parts.push("fixed".to_owned()),
            ScheduleTiming::Location => {
                parts.push("location".to_owned());
                parts.push("--latitude".to_owned());
                parts.push(latitude.to_owned());
                parts.push("--longitude".to_owned());
                parts.push(longitude.to_owned());
            },
        }
    } else {
        parts.push("--mode".to_owned());
        parts.push("manual".to_owned());
        parts.push("--warmth".to_owned());
        parts.push(decimal(preset.manual.warmth as u32));
        parts.push("--brightness".to_owned());
        parts.push(decimal(preset.manual.brightness as u32));
    }
    proof {
        assert(texts(parts@) =~= apply_words(preset@, latitude@, longitude@));
    }
    join(parts.as_slice(), " ")
}

/// A failure to reach the daemon, with what to do about it.
pub open spec fn hinted(message: Seq<char>) -> Seq<char> {
    if occurs_in("outdated"@, message) || occurs_in("unsupported IPC"@, message) {
        message
    } else {
        message
            + "\nstart the background service with `waywarm daemon`, or open the settings UI first"@
    }
}

/// Adds what to do about a failure to reach the daemon.
pub fn daemon_hint(message: &str) -> (text: String)
    ensures
        text@ == hinted(message@),
{
    let mut text: String = message.to_owned();
    if !contains(message, "outdated") && !contains(message, "unsupported IPC") {
        text.append(
            "\nstart the background service with `waywarm daemon`, or open the settings UI first",
        );
    }
    text
}

// ── commands ─────────────────────────────────────────────────────────────────

/// What is to be done with the daemon's state.
#[derive(Debug)]
pub enum Task {
    Status { json: bool },
    Change { options: SetOptions, json: bool },
    Enable { enabled: bool, json: bool },
    Toggle { json: bool },
    PresetList { json: bool },
    PresetSave { name: String, json: bool },
    PresetApply { name: String, json: bool },
    PresetDelete { name: String, json: bool },
}

/// A task with its texts as sequences of characters.
pub enum TaskView {
    Status { json: bool },
    Change { options: SetOptionsView, json: bool },
    Enable { enabled: bool, json: bool },
    Toggle { json: bool },
    PresetList { json: bool },
    PresetSave { name: Seq<char>, json: bool },
    PresetApply { name: Seq<char>, json: bool },
    PresetDelete { name: Seq<char>, json: bool },
}

impl View for Task {
    type V = TaskView;

    open spec fn view(&self) -> TaskView {
        match *self {
            Task::Status { json } => TaskView::Status { json },
            Task::Change { options, json } => TaskView::Change { options: options@, json },
            Task::Enable { enabled, json } => TaskView::Enable { enabled, json },
            Task::Toggle { json } => TaskView::Toggle { json },
            Task::PresetList { json } => TaskView::PresetList { json },
            Task::PresetSave { name, json } => TaskView::PresetSave { name: name@, json },
            Task::PresetApply { name, json } => TaskView::PresetApply { name: name@, json },
            Task::PresetDelete { name, json } => TaskView::PresetDelete { name: name@, json },
        }
    }
}

/// What a command does first.
#[derive(Debug)]
pub enum Plan {
    /// Print a text.
    Print(String),
    /// Ask the daemon for its state, and go on from there.
    Query(Task),
    /// Print the command for a preset in the settings file.
    Export(String),
    /// Run a session of its own.
    Session(Settings),
}

/// What a command does first, with texts as sequences of characters.
pub enum PlanView {
    Print(Seq<char>),
    Query(TaskView),
    Export(Seq<char>),
    Session(SettingsView),
}

impl View for Plan {
    type V = PlanView;

    open spec fn view(&self) -> PlanView {
        match *self {
            Plan::Print(text) => PlanView::Print(text@),
            Plan::Query(task) => PlanView::Query(task@),
            Plan::Export(name) => PlanView::Export(name@),
            Plan::Session(settings) => PlanView::Session(settings@),
        }
    }
}

/// The task of a command that takes only flags.
pub open spec fn flag_task(command: Seq<char>, json: bool) -> TaskView {
    if command == "status"@ {
        TaskView::Status { json }
    } else if command == "enable"@ {
        TaskView::Enable { enabled: true, json }
    } else if command == "disable"@ {
        TaskView::Enable { enabled: false, json }
    } else {
        TaskView::Toggle { json }
    }
}

/// What a command that takes only flags does first.
pub open spec fn flag_plan(args: Seq<Seq<char>>, command: Seq<char>) -> Result<PlanView, ErrorView> {
    match flags_of(args, command) {
        Ok(FlagOnlyView::Help(help)) => Ok(PlanView::Print(help)),
        Ok(FlagOnlyView::Json(json)) => Ok(PlanView::Query(flag_task(command, json))),
        Err(error) => Err(error),
    }
}

/// What `set` does first.
pub open spec fn set_plan(args: Seq<Seq<char>>, numbers: Seq<Option<Coordinate>>) -> Result<
    PlanView,
    ErrorView,
> {
    match options_of(args, numbers, "set"@) {
        Ok(SetParseView::Help(help)) => Ok(PlanView::Print(help)),
        Ok(SetParseView::Options { options, json }) => if options == no_options() {
            Err(fault(ErrorKind::NothingToChange))
        } else {
            Ok(PlanView::Query(TaskView::Change { options, json }))
        },
        Err(error) => Err(error),
    }
}

/// The settings of a session with some options: the default settings, changed, with the filter on.
pub open spec fn session_settings(options: SetOptionsView) -> SettingsView {
    SettingsView { enabled: true, ..options_applied(default_settings(), options) }
}

/// What `apply` does first.
pub open spec fn apply_plan(args: Seq<Seq<char>>, numbers: Seq<Option<Coordinate>>) -> Result<
    PlanView,
    ErrorView,
> {
    match options_of(args, numbers, "apply"@) {
        Ok(SetParseView::Help(help)) => Ok(PlanView::Print(help)),
        Ok(SetParseView::Options { options, json }) => {
            let changed = options_applied(default_settings(), options);
            if json {
                Err(fault(ErrorKind::ApplyJson))
            } else if options == no_options() {
                Err(fault(ErrorKind::NothingToApply))
            } else if options.enabled == Some(false) {
                Err(fault(ErrorKind::ApplyOff))
            } else if applied_fault(changed, options) is Some {
                Err(applied_fault(changed, options)->0)
            } else if settings_fault(session_settings(options)) is Some {
                Err(settings_fault(session_settings(options))->0)
            } else {
                Ok(PlanView::Session(session_settings(options)))
            }
        },
        Err(error) => Err(error),
    }
}

/// A request for help, or no argument at all.
pub open spec fn wants_help(args: Seq<Seq<char>>) -> bool {
    args.len() == 0 || args[0] == "--help"@ || args[0] == "-h"@
}

/// What an action on a named preset does first.
pub open spec fn named_plan(action: Seq<char>, args: Seq<Seq<char>>) -> Result<
    PlanView,
    ErrorView,
> {
    match name_from(args, 0, None, false) {
        Ok(None) => Ok(PlanView::Print(help_text("preset"@))),
        Ok(Some((name, json))) => Ok(
            PlanView::Query(
                if action == "save"@ {
                    TaskView::PresetSave { name, json }
                } else if action == "apply"@ {
                    TaskView::PresetApply { name, json }
                } else {
                    TaskView::PresetDelete { name, json }
                },
            ),
        ),
        Err(error) => Err(error),
    }
}

/// What `preset` does first.
pub open spec fn preset_plan(args: Seq<Seq<char>>) -> Result<PlanView, ErrorView> {
    if wants_help(args) {
        Ok(PlanView::Print(help_text("preset"@)))
    } else if args[0] == "list"@ {
        match flags_from(args.skip(1), "preset list"@, "preset"@, 0, false) {
            Ok(FlagOnlyView::Help(help)) => Ok(PlanView::Print(help)),
            Ok(FlagOnlyView::Json(json)) => Ok(PlanView::Query(TaskView::PresetList { json })),
            Err(error) => Err(error),
        }
    } else if args[0] == "save"@ || args[0] == "apply"@ || args[0] == "delete"@ || args[0]
        == "rm"@ {
        named_plan(args[0], args.skip(1))
    } else {
        Err(fault_about(ErrorKind::UnknownPresetAction, args[0]))
    }
}

/// What `export` does first.
pub open spec fn export_plan(args: Seq<Seq<char>>) -> Result<PlanView, ErrorView> {
    if wants_help(args) {
        Ok(PlanView::Print(help_text("export"@)))
    } else if args[0] == "preset"@ {
        match export_from(args.skip(1), 0, None) {
            Ok(None) => Ok(PlanView::Print(help_text("export"@))),
            Ok(Some(name)) => Ok(PlanView::Export(name)),
            Err(error) => Err(error),
        }
    } else {
        Err(fault_about(ErrorKind::UnknownExportKind, args[0]))
    }
}

/// What a command does first.
pub open spec fn plan_of(
    command: Seq<char>,
    args: Seq<Seq<char>>,
    numbers: Seq<Option<Coordinate>>,
) -> Result<PlanView, ErrorView> {
    if command == "status"@ || command == "enable"@ || command == "disable"@ || command
        == "toggle"@ {
        flag_plan(args, command)
    } else if command == "set"@ {
        set_plan(args, numbers)
    } else if command == "preset"@ {
        preset_plan(args)
    } else if command == "export"@ {
        export_plan(args)
    } else if command == "apply"@ {
        apply_plan(args, numbers)
    } else {
        Err(fault_about(ErrorKind::UnknownCommand, command))
    }
}

/// Whether a plan, or a failure, is the one that is called for.
pub open spec fn is_plan(plan: Result<Plan, Error>, wanted: Result<PlanView, ErrorView>) -> bool {
    match plan {
        Ok(p) => wanted == Ok::<PlanView, ErrorView>(p@),
        Err(error) => wanted == Err::<PlanView, ErrorView>(error@),
    }
}

fn plan_flags(args: &[String], command: &str) -> (plan: Result<Plan, Error>)
    ensures
        is_plan(plan, flag_plan(texts(args@), command@)),
{
    match parse_flag_only(args, command) {
        Ok(FlagOnly::Help(help)) => Ok(Plan::Print(help)),
        Ok(FlagOnly::Json(json)) => Ok(
            Plan::Query(
                if *command == *"status" {
                    Task::Status { json }
                } else if *command == *"enable" {
                    Task::Enable { enabled: true, json }
                } else if *command == *"disable" {
                    Task::Enable { enabled: false, json }
                } else {
                    Task::Toggle { json }
                },
            ),
        ),
        Err(error) => Err(error),
    }
}

fn plan_set(args: &[String], numbers: &[Option<Coordinate>]) -> (plan: Result<Plan, Error>)
    requires
        numbers@.len() == args@.len(),
    ensures
        is_plan(plan, set_plan(texts(args@), numbers@)),
{
    match parse_set_args(args, numbers, "set") {
        Ok(SetParse::Help(help)) => Ok(Plan::Print(help)),
        Ok(SetParse::Options { options, json }) => {
            if options.is_empty() {
                return Err(Error::new(ErrorKind::NothingToChange));
            }
            Ok(Plan::Query(Task::Change { options, json }))
        },
        Err(error) => Err(error),
    }
}

fn plan_apply(args: &[String], numbers: &[Option<Coordinate>]) -> (plan: Result<Plan, Error>)
    requires
        numbers@.len() == args@.len(),
    ensures
        is_plan(plan, apply_plan(texts(args@), numbers@)),
{
    match parse_set_args(args, numbers, "apply") {
        Ok(SetParse::Help(help)) => Ok(Plan::Print(help)),
        Ok(SetParse::Options { options, json }) => {
            if json {
                return Err(Error::new(ErrorKind::ApplyJson));
            }
            if options.is_empty() {
                return Err(Error::new(ErrorKind::NothingToApply));
            }
            if let Some(enabled) = options.enabled {
                if !enabled {
                    return Err(Error::new(ErrorKind::ApplyOff));
                }
            }
            let mut settings: Settings = Settings::default();
            if let Err(error) = apply_set_options(&mut settings, &options) {
                return Err(error);
            }
            settings.enabled = true;
            if let Err(error) = settings.validate() {
                return Err(error);
            }
            Ok(Plan::Session(settings))
        },
        Err(error) => Err(error),
    }
}

fn rest_of(args: &[String]) -> (rest: &[String])
    requires
        args@.len() > 0,
    ensures
        texts(rest@) == texts(args@).skip(1),
{
    let rest: &[String] = vstd::slice::slice_subrange(args, 1, args.len());
    proof {
        assert(texts(rest@) =~= texts(args@).skip(1));
    }
    rest
}

fn asks_for_help(args: &[String]) -> (r: bool)
    ensures
        r == wants_help(texts(args@)),
{
    if args.len() == 0 {
        return true;
    }
    let first: &str = args[0].as_str();
    proof {
        assert(texts(args@)[0] == first@);
    }
    *first == *"--help" || *first == *"-h"
}

fn plan_named(action: &str, args: &[String]) -> (plan: Result<Plan, Error>)
    ensures
        is_plan(plan, named_plan(action@, texts(args@))),
{
    match parse_preset_name_args(args) {
        Ok(None) => Ok(Plan::Print(command_help("preset"))),
        Ok(Some((name, json))) => Ok(
            Plan::Query(
                if *action == *"save" {
                    Task::PresetSave { name, json }
                } else if *action == *"apply" {
                    Task::PresetApply { name, json }
                } else {
                    Task::PresetDelete { name, json }
                },
            ),
        ),
        Err(error) => Err(error),
    }
}

fn plan_preset(args: &[String]) -> (plan: Result<Plan, Error>)
    ensures
        is_plan(plan, preset_plan(texts(args@))),
{
    if asks_for_help(args) {
        return Ok(Plan::Print(command_help("preset")));
    }
    let action: &str = args[0].as_str();
    proof {
        assert(texts(args@)[0] == action@);
    }
    let rest: &[String] = rest_of(args);
    if *action == *"list" {
        match parse_flags(rest, "preset list", "preset") {
            Ok(FlagOnly::Help(help)) => Ok(Plan::Print(help)),
            Ok(FlagOnly::Json(json)) => Ok(Plan::Query(Task::PresetList { json })),
            Err(error) => Err(error),
        }
    } else if *action == *"save" || *action == *"apply" || *action == *"delete" || *action
        == *"rm" {
        plan_named(action, rest)
    } else {
        Err(Error::about(ErrorKind::UnknownPresetAction, action))
    }
}

fn plan_export(args: &[String]) -> (plan: Result<Plan, Error>)
    ensures
        is_plan(plan, export_plan(texts(args@))),
{
    if asks_for_help(args) {
        return Ok(Plan::Print(command_help("export")));
    }
    let kind: &str = args[0].as_str();
    proof {
        assert(texts(args@)[0] == kind@);
    }
    if *kind == *"preset" {
        match parse_export_args(rest_of(args)) {
            Ok(None) => Ok(Plan::Print(command_help("export"))),
            Ok(Some(name)) => Ok(Plan::Export(name)),
            Err(error) => Err(error),
        }
    } else {
        Err(Error::about(ErrorKind::UnknownExportKind, kind))
    }
}

/// Reads a command with its arguments, and says what it does first. `numbers` holds, for each
/// argument, the number that it reads as.
pub fn run(command: &str, args: &[String], numbers: &[Option<Coordinate>]) -> (plan: Result<
    Plan,
    Error,
>)
    requires
        numbers@.len() == args@.len(),
    ensures
        is_plan(plan, plan_of(command@, texts(args@), numbers@)),
{
    if *command == *"status" || *command == *"enable" || *command == *"disable" || *command
        == *"toggle" {
        plan_flags(args, command)
    } else if *command == *"set" {
        plan_set(args, numbers)
    } else if *command == *"preset" {
        plan_preset(args)
    } else if *command == *"export" {
        plan_export(args)
    } else if *command == *"apply" {
        plan_apply(args, numbers)
    } else {
        Err(Error::about(ErrorKind::UnknownCommand, command))
    }
}

/// What a command does once it has the daemon's state.
#[derive(Debug)]
pub enum Next {
    /// Print the state for machines.
    ShowState(RuntimeState),
    /// Print the presets of the state for machines.
    ShowPresets(RuntimeState),
    /// Print a text.
    Show(String),
    /// Send settings, and print the state that comes back if asked to.
    Replace { settings: Settings, json: bool },
    /// Nothing.
    Finish,
}

/// What a command does next, with texts as sequences of characters.
pub enum NextView {
    ShowState(RuntimeView),
    ShowPresets(RuntimeView),
    Show(Seq<char>),
    Replace { settings: SettingsView, json: bool },
    Finish,
}

impl View for Next {
    type V = NextView;

    open spec fn view(&self) -> NextView {
        match *self {
            Next::ShowState(state) => NextView::ShowState(state@),
            Next::ShowPresets(state) => NextView::ShowPresets(state@),
            Next::Show(text) => NextView::Show(text@),
            Next::Replace { settings, json } => NextView::Replace { settings: settings@, json },
            Next::Finish => NextView::Finish,
        }
    }
}

/// Lines, each with its line feed.
pub open spec fn lines_text(lines: Seq<Seq<char>>) -> Seq<char>
    decreases lines.len(),
{
    if lines.len() == 0 {
        Seq::empty()
    } else {
        lines_text(lines.drop_last()) + lines.last() + "\n"@
    }
}

/// What a task does with the daemon's state, given the coordinates of its schedule with four
/// decimals.
pub open spec fn next_of(
    task: TaskView,
    state: RuntimeView,
    latitude: Seq<char>,
    longitude: Seq<char>,
) -> Result<NextView, ErrorView> {
    let settings = state.settings;
    match task {
        TaskView::Status { json } => Ok(
            if json {
                NextView::ShowState(state)
            } else {
                NextView::Show(status_text(state, latitude, longitude))
            },
        ),
        TaskView::Change { options, json } => {
            let changed = options_applied(settings, options);
            if applied_fault(changed, options) is Some {
                Err(applied_fault(changed, options)->0)
            } else if settings_fault(changed) is Some {
                Err(settings_fault(changed)->0)
            } else {
                Ok(NextView::Replace { settings: changed, json })
            }
        },
        TaskView::Enable { enabled, json } => if settings.enabled != enabled {
            Ok(NextView::Replace { settings: SettingsView { enabled, ..settings }, json })
        } else if json {
            Ok(NextView::ShowState(state))
        } else {
            Ok(NextView::Finish)
        },
        TaskView::Toggle { json } => Ok(
            NextView::Replace {
                settings: SettingsView { enabled: !settings.enabled, ..settings },
                json,
            },
        ),
        TaskView::PresetList { json } => Ok(
            if json {
                NextView::ShowPresets(state)
            } else if settings.presets.len() == 0 {
                NextView::Show("(no presets)\n"@)
            } else {
                NextView::Show(lines_text(names_of(settings.presets)))
            },
        ),
        TaskView::PresetSave { name, json } => match new_preset_fault(settings, name) {
            Some(error) => Err(error),
            None => Ok(
                NextView::Replace {
                    settings: SettingsView {
                        presets: with_entry(
                            settings.presets,
                            EntryView { name, preset: preset_of(settings) },
                        ),
                        ..settings
                    },
                    json,
                },
            ),
        },
        TaskView::PresetApply { name, json } => match lookup(settings.presets, name) {
            Some(preset) => Ok(
                NextView::Replace { settings: with_preset(settings, preset), json },
            ),
            None => Err(fault_about(ErrorKind::UnknownPreset, name)),
        },
        TaskView::PresetDelete { name, json } => if has_name(settings.presets, name) {
            Ok(
                NextView::Replace {
                    settings: SettingsView {
                        presets: without_name(settings.presets, name),
                        ..settings
                    },
                    json,
                },
            )
        } else {
            Err(fault_about(ErrorKind::UnknownPreset, name))
        },
    }
}

fn name_lines(names: &Vec<String>) -> (text: String)
    ensures
        text@ == lines_text(texts(names@)),
{
    let ghost all = texts(names@);
    let mut text: String = String::new();
    for i in 0..names.len()
        invariant
            all == texts(names@),
            text@ == lines_text(all.take(i as int)),
    {
        text.append(names[i].as_str());
        text.append("\n");
        proof {
            assert(all.take(i + 1).drop_last() =~= all.take(i as int));
            assert(all.take(i + 1).last() == names@[i as int]@);
        }
    }
    proof {
        assert(all.take(all.len() as int) =~= all);
    }
    text
}

/// Goes on with a task once the daemon's state is known, given the coordinates of its schedule with
/// four decimals.
pub fn proceed(task: Task, state: RuntimeState, latitude: &str, longitude: &str) -> (next: Result<
    Next,
    Error,
>)
    ensures
        match next {
            Ok(n) => next_of(task@, state@, latitude@, longitude@) == Ok::<NextView, ErrorView>(
                n@,
            ),
            Err(error) => next_of(task@, state@, latitude@, longitude@) == Err::<
                NextView,
                ErrorView,
            >(error@),
        },
{
    let mut state: RuntimeState = state;
    match task {
        Task::Status { json } => if json {
            Ok(Next::ShowState(state))
        } else {
            Ok(Next::Show(format_status_human(&state, latitude, longitude)))
        },
        Task::Change { options, json } => {
            if let Err(error) = apply_set_options(&mut state.settings, &options) {
                return Err(error);
            }
            if let Err(error) = state.settings.validate() {
                return Err(error);
            }
            Ok(Next::Replace { settings: state.settings, json })
        },
        Task::Enable { enabled, json } => {
            if state.settings.enabled == enabled {
                if json {
                    return Ok(Next::ShowState(state));
                }
                return Ok(Next::Finish);
            }
            state.settings.enabled = enabled;
            Ok(Next::Replace { settings: state.settings, json })
        },
        Task::Toggle { json } => {
            state.settings.enabled = !state.settings.enabled;
            Ok(Next::Replace { settings: state.settings, json })
        },
        Task::PresetList { json } => if json {
            Ok(Next::ShowPresets(state))
        } else if state.settings.presets.is_empty() {
            Ok(Next::Show("(no presets)\n".to_owned()))
        } else {
            Ok(Next::Show(name_lines(&state.settings.presets.names())))
        },
        Task::PresetSave { name, json } => {
            if let Err(error) = state.settings.save_preset(name.as_str()) {
                return Err(error);
            }
            Ok(Next::Replace { settings: state.settings, json })
        },
        Task::PresetApply { name, json } => {
            if let Err(error) = state.settings.apply_preset(name.as_str()) {
                return Err(error);
            }
            Ok(Next::Replace { settings: state.settings, json })
        },
        Task::PresetDelete { name, json } => {
            if let Err(error) = state.settings.delete_preset(name.as_str()) {
                return Err(error);
            }
            Ok(Next::Replace { settings: state.settings, json })
        },
    }
}

/// The preset of a name among those of the settings file.
pub fn exported_preset(settings: &Settings, name: &str) -> (preset: Result<Preset, Error>)
    ensures
        match lookup(settings@.presets, name@) {
            Some(found) => preset is Ok && preset->Ok_0@ == found,
            None => failure(preset) == Some(fault_about(ErrorKind::UnknownPreset, name@)),
        },
{
    match settings.presets.get(name) {
        Some(preset) => Ok(preset.clone()),
        None => Err(Error::about(ErrorKind::UnknownPreset, name)),
    }
}

// ── the program's own arguments ──────────────────────────────────────────────

/// What the program runs as.
#[derive(Clone, Copy, Debug, PartialEq, Eq, Structural)]
pub enum Start {
    /// The settings interface.
    Settings,
    /// The service manager's interface.
    Service,
    /// The daemon.
    Daemon,
    /// A command.
    Command,
    /// Its own help.
    Help,
}

/// What the program runs as with some arguments.
pub open spec fn start_of(args: Seq<Seq<char>>) -> Result<Start, ErrorView> {
    if args.len() == 0 {
        Ok(Start::Settings)
    } else if args[0] == "daemon"@ && args.len() == 1 {
        Ok(Start::Service)
    } else if args[0] == "--daemon"@ && args.len() == 1 {
        Ok(Start::Daemon)
    } else if args[0] == "status"@ || args[0] == "set"@ || args[0] == "enable"@ || args[0]
        == "disable"@ || args[0] == "toggle"@ {
        Ok(Start::Command)
    } else if (args[0] == "--help"@ || args[0] == "-h"@ || args[0] == "help"@) && args.len() == 1 {
        Ok(Start::Help)
    } else {
        Err(fault_about(ErrorKind::UnknownArgument, args[0]))
    }
}

/// Decides what the program runs as.
pub fn dispatch(args: &[String]) -> (start: Result<Start, Error>)
    ensures
        match start {
            Ok(s) => start_of(texts(args@)) == Ok::<Start, ErrorView>(s),
            Err(error) => start_of(texts(args@)) == Err::<Start, ErrorView>(error@),
        },
{
    if args.len() == 0 {
        return Ok(Start::Settings);
    }
    let first: &str = args[0].as_str();
    proof {
        assert(texts(args@)[0] == first@);
    }
    let alone: bool = args.len() == 1;
    if *first == *"daemon" && alone {
        Ok(Start::Service)
    } else if *first == *"--daemon" && alone {
        Ok(Start::Daemon)
    } else if *first == *"status" || *first == *"set" || *first == *"enable" || *first
        == *"disable" || *first == *"toggle" {
        Ok(Start::Command)
    } else if (*first == *"--help" || *first == *"-h" || *first == *"help") && alone {
        Ok(Start::Help)
    } else {
        Err(Error::about(ErrorKind::UnknownArgument, first))
    }
}

// ── what holds of the command line ───────────────────────────────────────────

/// The words of a text, which white space parts, behind a word that was begun before it.
pub open spec fn words_behind(begun: Seq<char>, text: Seq<char>) -> Seq<Seq<char>>
    decreases text.len(),
{
    let finished = if begun.len() == 0 {
        Seq::empty()
    } else {
        seq![begun]
    };
    if text.len() == 0 {
        finished
    } else if is_space(text[0]) {
        finished + words_behind(Seq::empty(), text.drop_first())
    } else {
        words_behind(begun.push(text[0]), text.drop_first())
    }
}

/// The words of a text, which white space parts.
pub open spec fn words_of(text: Seq<char>) -> Seq<Seq<char>> {
    words_behind(Seq::empty(), text)
}

/// A word: not empty, and without white space.
pub open spec fn is_word(text: Seq<char>) -> bool {
    text.len() > 0 && forall|i: int| 0 <= i < text.len() ==> !is_space(#[trigger] text[i])
}

proof fn lemma_words_behind(begun: Seq<char>, part: Seq<char>, text: Seq<char>)
    requires
        forall|i: int| 0 <= i < part.len() ==> !is_space(#[trigger] part[i]),
    ensures
        words_behind(begun, part + text) == words_behind(begun + part, text),
    decreases part.len(),
{
    if part.len() == 0 {
        assert(part + text =~= text);
        assert(begun + part =~= begun);
    } else {
        let rest = part.drop_first();
        assert((part + text).drop_first() =~= rest + text);
        assert(begun.push(part[0]) + rest =~= begun + part);
        assert forall|i: int| 0 <= i < rest.len() implies !is_space(#[trigger] rest[i]) by {
            assert(rest[i] == part[i + 1]);
        }
        lemma_words_behind(begun.push(part[0]), rest, text);
    }
}

proof fn lemma_last_word(begun: Seq<char>, text: Seq<char>, word: Seq<char>)
    requires
        is_word(word),
    ensures
        words_behind(begun, text + " "@ + word) == words_behind(begun, text).push(word),
    decreases text.len(),
{
    reveal_strlit(" ");
    let none = Seq::<char>::empty();
    let whole = text + " "@ + word;
    if text.len() == 0 {
        assert(whole[0] == ' ');
        assert(whole.drop_first() =~= word);
        assert(word + none =~= word);
        assert(none + word =~= word);
        lemma_words_behind(none, word, none);
        assert(words_behind(none, word) == seq![word]);
        assert(words_behind(begun, whole) =~= words_behind(begun, text).push(word));
    } else {
        let rest = text.drop_first();
        assert(whole.drop_first() =~= rest + " "@ + word);
        assert(whole[0] == text[0]);
        lemma_last_word(none, rest, word);
        lemma_last_word(begun.push(text[0]), rest, word);
        assert(words_behind(begun, whole) =~= words_behind(begun, text).push(word));
    }
}

/// Words that are joined by spaces are told apart again.
pub proof fn joined_words_split(words: Seq<Seq<char>>)
    requires
        forall|i: int| 0 <= i < words.len() ==> is_word(#[trigger] words[i]),
    ensures
        words_of(joined(words, " "@)) == words,
    decreases words.len(),
{
    let none = Seq::<char>::empty();
    if words.len() == 0 {
        assert(words_of(joined(words, " "@)) =~= words);
    } else if words.len() == 1 {
        assert(words[0] + none =~= words[0]);
        lemma_words_behind(none, words[0], none);
        assert(none + words[0] =~= words[0]);
        assert(words_of(words[0]) =~= words);
    } else {
        let before = words.drop_last();
        assert forall|i: int| 0 <= i < before.len() implies is_word(#[trigger] before[i]) by {
            assert(before[i] == words[i]);
        }
        joined_words_split(before);
        assert(is_word(words[words.len() - 1]));
        lemma_last_word(none, joined(before, " "@), words.last());
        assert(before.push(words.last()) =~= words);
    }
}

proof fn lemma_flags()
    ensures
        flag_of("--mode"@) == Some(Flag::Mode),
        flag_of("--warmth"@) == Some(Flag::Warmth),
        flag_of("--brightness"@) == Some(Flag::Brightness),
        flag_of("--day-warmth"@) == Some(Flag::DayWarmth),
        flag_of("--day-brightness"@) == Some(Flag::DayBrightness),
        flag_of("--night-warmth"@) == Some(Flag::NightWarmth),
        flag_of("--night-brightness"@) == Some(Flag::NightBrightness),
        flag_of("--night-start"@) == Some(Flag::NightStart),
        flag_of("--day-start"@) == Some(Flag::DayStart),
        flag_of("--transition"@) == Some(Flag::Transition),
        flag_of("--timing"@) == Some(Flag::Timing),
        flag_of("--latitude"@) == Some(Flag::Latitude),
        flag_of("--longitude"@) == Some(Flag::Longitude),
{
    reveal_strlit("--help");
    reveal_strlit("-h");
    reveal_strlit("--json");
    reveal_strlit("--on");
    reveal_strlit("--off");
    reveal_strlit("--mode");
    reveal_strlit("--warmth");
    reveal_strlit("--brightness");
    reveal_strlit("--day-warmth");
    reveal_strlit("--day-brightness");
    reveal_strlit("--night-warmth");
    reveal_strlit("--night-brightness");
    reveal_strlit("--night-start");
    reveal_strlit("--day-start");
    reveal_strlit("--transition");
    reveal_strlit("--timing");
    reveal_strlit("--latitude");
    reveal_strlit("--lat");
    reveal_strlit("--longitude");
    reveal_strlit("--lon");
    assert("--help"@.len() == 6);
    assert("-h"@.len() == 2);
    assert("--json"@.len() == 6);
    assert("--on"@.len() == 4);
    assert("--off"@.len() == 5);
    assert("--mode"@.len() == 6);
    assert("--warmth"@.len() == 8);
    assert("--brightness"@.len() == 12);
    assert("--day-warmth"@.len() == 12);
    assert("--day-brightness"@.len() == 16);
    assert("--night-warmth"@.len() == 14);
    assert("--night-brightness"@.len() == 18);
    assert("--night-start"@.len() == 13);
    assert("--day-start"@.len() == 11);
    assert("--transition"@.len() == 12);
    assert("--timing"@.len() == 8);
    assert("--latitude"@.len() == 10);
    assert("--lat"@.len() == 5);
    assert("--longitude"@.len() == 11);
    assert("--lon"@.len() == 5);
    assert("--help"@[2] == 'h');
    assert("--json"@[2] == 'j');
    assert("--mode"@[2] == 'm');
    assert("--off"@[2] == 'o');
    assert("--lat"@[2] == 'l');
    assert("--lon"@[2] == 'l');
    assert("--lat"@[3] == 'a');
    assert("--lon"@[3] == 'o');
    assert("--warmth"@[2] == 'w');
    assert("--timing"@[2] == 't');
    assert("--brightness"@[2] == 'b');
    assert("--day-warmth"@[2] == 'd');
    assert("--transition"@[2] == 't');
    assert("--day-start"@[2] == 'd');
    assert("--longitude"@[2] == 'l');
}

proof fn lemma_values()
    ensures
        mode_of("automatic"@) == Ok::<bool, ErrorView>(true),
        mode_of("manual"@) == Ok::<bool, ErrorView>(false),
        timing_of("fixed"@) == Ok::<ScheduleTiming, ErrorView>(ScheduleTiming::Fixed),
        timing_of("location"@) == Ok::<ScheduleTiming, ErrorView>(ScheduleTiming::Location),
{
    reveal_strlit("automatic");
    reveal_strlit("auto");
    reveal_strlit("manual");
    reveal_strlit("fixed");
    reveal_strlit("clock");
    reveal_strlit("location");
    assert("automatic"@.len() == 9);
    assert("auto"@.len() == 4);
    assert("manual"@.len() == 6);
    assert("fixed"@.len() == 5);
    assert("clock"@.len() == 5);
    assert("location"@.len() == 8);
}

proof fn lemma_percent(n: u8, minimum: u8, name: Seq<char>)
    requires
        minimum <= n <= 100,
    ensures
        percent_of(decimal_text(n as int), minimum, name) == Ok::<u8, ErrorView>(n),
{
    decimal_reads_back(n as int, 255);
}

/// Reading an option with its value goes on behind the two.
proof fn lemma_option(
    args: Seq<Seq<char>>,
    numbers: Seq<Option<Coordinate>>,
    command: Seq<char>,
    index: int,
    options: SetOptionsView,
    flag: Flag,
    more: SetOptionsView,
)
    requires
        0 <= index,
        index + 1 < args.len(),
        flag_of(args[index]) == Some(flag),
        flag != Flag::Help && flag != Flag::Json && flag != Flag::On && flag != Flag::Off,
        with_option(options, flag, args[index + 1], numbers[index + 1]) == Ok::<
            SetOptionsView,
            ErrorView,
        >(more),
    ensures
        options_from(args, numbers, command, index, options, false) == options_from(
            args,
            numbers,
            command,
            index + 2,
            more,
            false,
        ),
{
    reveal(options_from);
}

/// The options that the words for a preset come to.
pub open spec fn preset_options(preset: PresetView) -> SetOptionsView {
    let schedule = preset.schedule;
    if preset.automatic {
        SetOptionsView {
            automatic: Some(true),
            day_warmth: Some(schedule.day.warmth),
            day_brightness: Some(schedule.day.brightness),
            night_warmth: Some(schedule.night.warmth),
            night_brightness: Some(schedule.night.brightness),
            night_start: Some(schedule.night_start),
            day_start: Some(schedule.day_start),
            transition: Some(schedule.transition_minutes),
            timing: Some(schedule.timing),
            latitude: if schedule.timing == ScheduleTiming::Location {
                Some(schedule.latitude)
            } else {
                None
            },
            longitude: if schedule.timing == ScheduleTiming::Location {
                Some(schedule.longitude)
            } else {
                None
            },
            ..no_options()
        }
    } else {
        SetOptionsView {
            automatic: Some(false),
            warmth: Some(preset.manual.warmth),
            brightness: Some(preset.manual.brightness),
            ..no_options()
        }
    }
}

/// Whether the numbers that the words for a preset read as are right where its coordinates stand,
/// which is at the end.
pub open spec fn reads_coordinates(preset: PresetView, numbers: Seq<Option<Coordinate>>) -> bool {
    preset.automatic && preset.schedule.timing == ScheduleTiming::Location ==> {
        &&& numbers[numbers.len() - 3] == Some(preset.schedule.latitude)
        &&& numbers[numbers.len() - 1] == Some(preset.schedule.longitude)
    }
}

/// Behind the last argument, the options that were read are the outcome.
proof fn lemma_options_end(
    args: Seq<Seq<char>>,
    numbers: Seq<Option<Coordinate>>,
    command: Seq<char>,
    options: SetOptionsView,
)
    ensures
        options_from(args, numbers, command, args.len() as int, options, false) == Ok::<
            SetParseView,
            ErrorView,
        >(SetParseView::Options { options, json: false }),
{
    reveal(options_from);
}

proof fn lemma_automatic_words(
    preset: PresetView,
    latitude: Seq<char>,
    longitude: Seq<char>,
    numbers: Seq<Option<Coordinate>>,
    command: Seq<char>,
)
    requires
        preset_fault(preset) is None,
        preset.automatic,
        numbers.len() == option_words(preset, latitude, longitude).len(),
        reads_coordinates(preset, numbers),
    ensures
        options_from(
            option_words(preset, latitude, longitude),
            numbers,
            command,
            0,
            no_options(),
            false,
        ) == Ok::<SetParseView, ErrorView>(
            SetParseView::Options { options: preset_options(preset), json: false },
        ),
{
    let args = option_words(preset, latitude, longitude);
    let schedule = preset.schedule;
    lemma_flags();
    lemma_values();
    lemma_percent(schedule.day.warmth, 0, "day-warmth"@);
    lemma_percent(schedule.day.brightness, MIN_BRIGHTNESS, "day-brightness"@);
    lemma_percent(schedule.night.warmth, 0, "night-warmth"@);
    lemma_percent(schedule.night.brightness, MIN_BRIGHTNESS, "night-brightness"@);
    decimal_reads_back(schedule.transition_minutes as int, 65535);
    let o0 = no_options();
    let o1 = SetOptionsView { automatic: Some(true), ..o0 };
    lemma_option(args, numbers, command, 0, o0, Flag::Mode, o1);
    let o2 = SetOptionsView { day_warmth: Some(schedule.day.warmth), ..o1 };
    lemma_option(args, numbers, command, 2, o1, Flag::DayWarmth, o2);
    let o3 = SetOptionsView { day_brightness: Some(schedule.day.brightness), ..o2 };
    lemma_option(args, numbers, command, 4, o2, Flag::DayBrightness, o3);
    let o4 = SetOptionsView { night_warmth: Some(schedule.night.warmth), ..o3 };
    lemma_option(args, numbers, command, 6, o3, Flag::NightWarmth, o4);
    let o5 = SetOptionsView { night_brightness: Some(schedule.night.brightness), ..o4 };
    lemma_option(args, numbers, command, 8, o4, Flag::NightBrightness, o5);
    let o6 = SetOptionsView { night_start: Some(schedule.night_start), ..o5 };
    lemma_option(args, numbers, command, 10, o5, Flag::NightStart, o6);
    let o7 = SetOptionsView { day_start: Some(schedule.day_start), ..o6 };
    lemma_option(args, numbers, command, 12, o6, Flag::DayStart, o7);
    let o8 = SetOptionsView { transition: Some(schedule.transition_minutes), ..o7 };
    lemma_option(args, numbers, command, 14, o7, Flag::Transition, o8);
    let o9 = SetOptionsView { timing: Some(schedule.timing), ..o8 };
    lemma_option(args, numbers, command, 16, o8, Flag::Timing, o9);
    if schedule.timing == ScheduleTiming::Location {
        let o10 = SetOptionsView { latitude: Some(schedule.latitude), ..o9 };
        lemma_option(args, numbers, command, 18, o9, Flag::Latitude, o10);
        let o11 = SetOptionsView { longitude: Some(schedule.longitude), ..o10 };
        lemma_option(args, numbers, command, 20, o10, Flag::Longitude, o11);
    }
    lemma_options_end(args, numbers, command, preset_options(preset));
}

proof fn lemma_manual_words(
    preset: PresetView,
    latitude: Seq<char>,
    longitude: Seq<char>,
    numbers: Seq<Option<Coordinate>>,
    command: Seq<char>,
)
    requires
        preset_fault(preset) is None,
        !preset.automatic,
    ensures
        options_from(
            option_words(preset, latitude, longitude),
            numbers,
            command,
            0,
            no_options(),
            false,
        ) == Ok::<SetParseView, ErrorView>(
            SetParseView::Options { options: preset_options(preset), json: false },
        ),
{
    let args = option_words(preset, latitude, longitude);
    lemma_flags();
    lemma_values();
    lemma_percent(preset.manual.warmth, 0, "warmth"@);
    lemma_percent(preset.manual.brightness, MIN_BRIGHTNESS, "brightness"@);
    let o0 = no_options();
    let o1 = SetOptionsView { automatic: Some(false), ..o0 };
    lemma_option(args, numbers, command, 0, o0, Flag::Mode, o1);
    let o2 = SetOptionsView { warmth: Some(preset.manual.warmth), ..o1 };
    lemma_option(args, numbers, command, 2, o1, Flag::Warmth, o2);
    let o3 = SetOptionsView { brightness: Some(preset.manual.brightness), ..o2 };
    lemma_option(args, numbers, command, 4, o2, Flag::Brightness, o3);
    lemma_options_end(args, numbers, command, preset_options(preset));
}

/// The words that are printed for a valid preset are read as the options that bring it about.
pub proof fn exported_words_are_read_back(
    preset: PresetView,
    latitude: Seq<char>,
    longitude: Seq<char>,
    numbers: Seq<Option<Coordinate>>,
    command: Seq<char>,
)
    requires
        preset_fault(preset) is None,
        numbers.len() == option_words(preset, latitude, longitude).len(),
        reads_coordinates(preset, numbers),
    ensures
        options_of(option_words(preset, latitude, longitude), numbers, command) == Ok::<
            SetParseView,
            ErrorView,
        >(SetParseView::Options { options: preset_options(preset), json: false }),
{
    if preset.automatic {
        lemma_automatic_words(preset, latitude, longitude, numbers, command);
    } else {
        lemma_manual_words(preset, latitude, longitude, numbers, command);
    }
}

/// Whether settings follow a preset: with the filter on, in its mode, with its schedule in automatic
/// mode and its levels in manual mode. A schedule that goes by the clock does not use coordinates,
/// which stay at their defaults.
pub open spec fn follows_preset(settings: SettingsView, preset: PresetView) -> bool {
    &&& settings.enabled
    &&& settings.automatic == preset.automatic
    &&& preset.automatic ==> settings.schedule == (if preset.schedule.timing
        == ScheduleTiming::Location {
        preset.schedule
    } else {
        ScheduleView {
            latitude: default_settings().schedule.latitude,
            longitude: default_settings().schedule.longitude,
            ..preset.schedule
        }
    })
    &&& !preset.automatic ==> settings.manual == preset.manual
}

/// The words that are printed for a valid preset run a session that follows it.
pub proof fn exported_presets_apply_back(
    preset: PresetView,
    latitude: Seq<char>,
    longitude: Seq<char>,
    numbers: Seq<Option<Coordinate>>,
)
    requires
        preset_fault(preset) is None,
        numbers.len() == option_words(preset, latitude, longitude).len(),
        reads_coordinates(preset, numbers),
    ensures
        plan_of("apply"@, option_words(preset, latitude, longitude), numbers) matches Ok(
            PlanView::Session(settings),
        ) && follows_preset(settings, preset),
{
    exported_words_are_read_back(preset, latitude, longitude, numbers, "apply"@);
    crate::config::default_settings_are_valid();
    reveal_strlit("apply");
    reveal_strlit("status");
    reveal_strlit("enable");
    reveal_strlit("disable");
    reveal_strlit("toggle");
    reveal_strlit("set");
    reveal_strlit("preset");
    reveal_strlit("export");
    assert("apply"@.len() == 5);
    assert("status"@.len() == 6);
    assert("enable"@.len() == 6);
    assert("disable"@.len() == 7);
    assert("toggle"@.len() == 6);
    assert("set"@.len() == 3);
    assert("preset"@.len() == 6);
    assert("export"@.len() == 6);
    let options = preset_options(preset);
    let changed = options_applied(default_settings(), options);
    assert(applied_fault(changed, options) is None);
    assert(settings_fault(session_settings(options)) is None);
}

proof fn lemma_decimal_is_word(n: int)
    requires
        0 <= n,
    ensures
        is_word(decimal_text(n)),
    decreases n,
{
    if n >= 10 {
        lemma_decimal_is_word(n / 10);
    }
}

proof fn lemma_number_is_word(text: Seq<char>, max: int)
    requires
        parsed_number(text, max) is Ok,
    ensures
        is_word(text),
{
    if text[0] == '+' {
        lemma_scanned_is_digits(text.drop_first(), 0, max);
        assert forall|i: int| 0 <= i < text.len() implies !is_space(#[trigger] text[i]) by {
            if i > 0 {
                assert(is_digit(text.drop_first()[i - 1]));
            }
        }
    } else {
        lemma_scanned_is_digits(text, 0, max);
    }
}

proof fn lemma_scanned_is_digits(digits: Seq<char>, value: int, max: int)
    requires
        crate::text::scanned(digits, value, max) is Ok,
    ensures
        forall|i: int| 0 <= i < digits.len() ==> is_digit(#[trigger] digits[i]),
    decreases digits.len(),
{
    if digits.len() > 0 {
        let rest = digits.drop_first();
        lemma_scanned_is_digits(rest, value * 10 + (digits[0] as int - 48), max);
        assert forall|i: int| 0 <= i < digits.len() implies is_digit(#[trigger] digits[i]) by {
            if i > 0 {
                assert(is_digit(rest[i - 1]));
            }
        }
    }
}

proof fn lemma_time_is_word(text: Seq<char>)
    requires
        time_of(text) is Ok,
    ensures
        is_word(text),
{
    crate::config::lemma_colon(text, 0);
    let i = crate::config::colon_from(text, 0)->0;
    let hour = text.take(i);
    let minute = text.skip(i + 1);
    lemma_number_is_word(hour, 65535);
    lemma_number_is_word(minute, 65535);
    assert forall|k: int| 0 <= k < text.len() implies !is_space(#[trigger] text[k]) by {
        if k < i {
            assert(!is_space(hour[k]));
        } else if k > i {
            assert(!is_space(minute[k - i - 1]));
        }
    }
}

/// The command that is printed for a valid preset is told apart into its words again, wherever
/// white space parts words, if its coordinates are written as single words.
pub proof fn exported_commands_split(preset: PresetView, latitude: Seq<char>, longitude: Seq<char>)
    requires
        preset_fault(preset) is None,
        is_word(latitude),
        is_word(longitude),
    ensures
        words_of(joined(apply_words(preset, latitude, longitude), " "@)) == apply_words(
            preset,
            latitude,
            longitude,
        ),
{
    let words = apply_words(preset, latitude, longitude);
    let schedule = preset.schedule;
    reveal_strlit("waywarm");
    reveal_strlit("apply");
    reveal_strlit("automatic");
    reveal_strlit("manual");
    reveal_strlit("fixed");
    reveal_strlit("location");
    reveal_strlit("--help");
    reveal_strlit("-h");
    reveal_strlit("--json");
    reveal_strlit("--on");
    reveal_strlit("--off");
    reveal_strlit("--mode");
    reveal_strlit("--warmth");
    reveal_strlit("--brightness");
    reveal_strlit("--day-warmth");
    reveal_strlit("--day-brightness");
    reveal_strlit("--night-warmth");
    reveal_strlit("--night-brightness");
    reveal_strlit("--night-start");
    reveal_strlit("--day-start");
    reveal_strlit("--transition");
    reveal_strlit("--timing");
    reveal_strlit("--latitude");
    reveal_strlit("--lat");
    reveal_strlit("--longitude");
    reveal_strlit("--lon");
    lemma_decimal_is_word(schedule.day.warmth as int);
    lemma_decimal_is_word(schedule.day.brightness as int);
    lemma_decimal_is_word(schedule.night.warmth as int);
    lemma_decimal_is_word(schedule.night.brightness as int);
    lemma_decimal_is_word(schedule.transition_minutes as int);
    lemma_decimal_is_word(preset.manual.warmth as int);
    lemma_decimal_is_word(preset.manual.brightness as int);
    lemma_time_is_word(schedule.night_start);
    lemma_time_is_word(schedule.day_start);
    assert forall|i: int| 0 <= i < words.len() implies is_word(#[trigger] words[i]) by {}
    joined_words_split(words);
}

/// The command that is printed for a valid preset, split at its spaces and read, asks for a session
/// that follows the preset, wherever numbers are read such that its coordinates are read back from
/// how they were written.
pub proof fn printed_commands_run_their_presets(
    preset: PresetView,
    latitude: Seq<char>,
    longitude: Seq<char>,
    read: spec_fn(Seq<char>) -> Option<Coordinate>,
)
    requires
        preset_fault(preset) is None,
        is_word(latitude),
        is_word(longitude),
        read(latitude) == Some(preset.schedule.latitude),
        read(longitude) == Some(preset.schedule.longitude),
    ensures
        ({
            let words = words_of(joined(apply_words(preset, latitude, longitude), " "@));
            let args = words.skip(2);
            let numbers = Seq::new(args.len(), |i: int| read(args[i]));
            &&& words.len() >= 2
            &&& words[0] == "waywarm"@
            &&& plan_of(words[1], args, numbers) matches Ok(PlanView::Session(settings))
                && follows_preset(settings, preset)
        }),
{
    exported_commands_split(preset, latitude, longitude);
    let words = apply_words(preset, latitude, longitude);
    let args = words.skip(2);
    let numbers = Seq::new(args.len(), |i: int| read(args[i]));
    assert(args =~= option_words(preset, latitude, longitude));
    exported_presets_apply_back(preset, latitude, longitude, numbers);
}

/// A session only ever runs with valid settings, and with the filter on.
pub proof fn sessions_have_valid_settings(
    command: Seq<char>,
    args: Seq<Seq<char>>,
    numbers: Seq<Option<Coordinate>>,
)
    ensures
        plan_of(command, args, numbers) matches Ok(PlanView::Session(settings)) ==> settings_fault(
            settings,
        ) is None && settings.enabled,
{
}

/// What a command sends to a daemon with valid settings is valid.
pub proof fn replacements_are_valid(
    task: TaskView,
    state: RuntimeView,
    latitude: Seq<char>,
    longitude: Seq<char>,
)
    requires
        ascending(state.settings.presets),
        settings_fault(state.settings) is None,
    ensures
        next_of(task, state, latitude, longitude) matches Ok(
            NextView::Replace { settings, .. },
        ) ==> settings_fault(settings) is None,
{
    match task {
        TaskView::PresetSave { name, .. } => {
            if new_preset_fault(state.settings, name) is None {
                saving_keeps_settings_valid(state.settings, name);
            }
        },
        TaskView::PresetApply { name, .. } => {
            if lookup(state.settings.presets, name) is Some {
                applying_keeps_settings_valid(state.settings, name);
            }
        },
        TaskView::PresetDelete { name, .. } => {
            deleting_keeps_settings_valid(state.settings, name);
        },
        _ => {},
    }
}

/// Toggling changes nothing but whether the filter is on, and toggling twice changes nothing.
pub proof fn toggling_twice_changes_nothing(
    state: RuntimeView,
    latitude: Seq<char>,
    longitude: Seq<char>,
    json: bool,
)
    ensures
        next_of(TaskView::Toggle { json }, state, latitude, longitude) matches Ok(
            NextView::Replace { settings, .. },
        ) && settings == (SettingsView { enabled: !state.settings.enabled, ..state.settings })
            && next_of(
            TaskView::Toggle { json },
            RuntimeView { settings, ..state },
            latitude,
            longitude,
        ) == Ok::<NextView, ErrorView>(NextView::Replace { settings: state.settings, json }),
{
}

/// Options that name neither a level by hand nor the switch nor the mode leave the switch and the
/// mode alone; a level by hand turns the filter on in manual mode, unless the options say otherwise.
pub proof fn levels_by_hand_switch_to_manual(settings: SettingsView, options: SetOptionsView)
    ensures
        ({
            let after = options_applied(settings, options);
            let by_hand = options.warmth is Some || options.brightness is Some;
            &&& options.enabled matches Some(enabled) ==> after.enabled == enabled
            &&& options.automatic matches Some(automatic) ==> after.automatic == automatic
            &&& options.enabled is None ==> after.enabled == (by_hand || settings.enabled)
            &&& options.automatic is None ==> after.automatic == (!by_hand && settings.automatic)
        }),
{
}

// ── what commands are for ────────────────────────────────────────────────────

/// `preset apply` sends the settings of the state with the mode, the levels by hand and the schedule
/// of the preset that has the name; the switch and the presets stay. Without such a preset it
/// fails and sends nothing.
pub proof fn applying_sends_the_preset(
    state: RuntimeView,
    name: Seq<char>,
    json: bool,
    latitude: Seq<char>,
    longitude: Seq<char>,
)
    requires
        ascending(state.settings.presets),
    ensures
        ({
            let next = next_of(TaskView::PresetApply { name, json }, state, latitude, longitude);
            let presets = state.settings.presets;
            &&& forall|i: int|
                #![trigger presets[i]]
                0 <= i < presets.len() && presets[i].name == name ==> next == Ok::<
                    NextView,
                    ErrorView,
                >(
                    NextView::Replace {
                        settings: SettingsView {
                            version: state.settings.version,
                            enabled: state.settings.enabled,
                            automatic: presets[i].preset.automatic,
                            manual: presets[i].preset.manual,
                            schedule: presets[i].preset.schedule,
                            presets,
                        },
                        json,
                    },
                )
            &&& (forall|i: int| 0 <= i < presets.len() ==> (#[trigger] presets[i]).name != name)
                ==> next == Err::<NextView, ErrorView>(fault_about(ErrorKind::UnknownPreset, name))
        }),
{
    presets_are_found_by_name(state.settings.presets, name);
}

/// What `preset save` stored is sent again by a later `preset apply` of the name: the mode, the
/// levels by hand and the schedule of the state when it was saved, whatever they are by then.
/// Saving itself changes nothing but the presets, and under no other name.
pub proof fn saved_presets_are_sent_again(
    saved: RuntimeView,
    later: RuntimeView,
    name: Seq<char>,
    json: bool,
    latitude: Seq<char>,
    longitude: Seq<char>,
)
    requires
        ascending(saved.settings.presets),
    ensures
        ({
            let first = next_of(TaskView::PresetSave { name, json }, saved, latitude, longitude);
            let second = next_of(TaskView::PresetApply { name, json }, later, latitude, longitude);
            let before = saved.settings;
            &&& first matches Ok(next) ==> next matches NextView::Replace { settings, json: j } && {
                &&& j == json
                &&& settings == (SettingsView { presets: settings.presets, ..before })
                &&& ascending(settings.presets)
                &&& forall|other: Seq<char>|
                    other != name ==> #[trigger] lookup(settings.presets, other) == lookup(
                        before.presets,
                        other,
                    )
                &&& later.settings.presets == settings.presets ==> second == Ok::<
                    NextView,
                    ErrorView,
                >(
                    NextView::Replace {
                        settings: SettingsView {
                            automatic: before.automatic,
                            manual: before.manual,
                            schedule: before.schedule,
                            ..later.settings
                        },
                        json,
                    },
                )
            }
            &&& first is Ok <==> {
                &&& !is_blank(name)
                &&& !has_control(name)
                &&& levels_fault(before.manual) is None
                &&& schedule_fault(before.schedule) is None
            }
        }),
{
    let entry = EntryView { name, preset: preset_of(saved.settings) };
    adding_is_lookup_update(saved.settings.presets, entry);
}

/// `preset delete` sends the settings of the state without the preset of the name: none is found
/// under it any more, every other one is found as before, and nothing else changes. Without such a
/// preset it fails.
pub proof fn deleting_takes_the_preset_away(
    state: RuntimeView,
    name: Seq<char>,
    json: bool,
    latitude: Seq<char>,
    longitude: Seq<char>,
)
    requires
        ascending(state.settings.presets),
    ensures
        ({
            let next = next_of(TaskView::PresetDelete { name, json }, state, latitude, longitude);
            let before = state.settings;
            let there = exists|i: int|
                0 <= i < before.presets.len() && (#[trigger] before.presets[i]).name == name;
            &&& there ==> (next matches Ok(NextView::Replace { settings, json: j }) && {
                &&& j == json
                &&& settings == (SettingsView { presets: settings.presets, ..before })
                &&& settings.presets.len() == before.presets.len() - 1
                &&& lookup(settings.presets, name) is None
                &&& forall|other: Seq<char>|
                    other != name ==> #[trigger] lookup(settings.presets, other) == lookup(
                        before.presets,
                        other,
                    )
            })
            &&& !there ==> next == Err::<NextView, ErrorView>(
                fault_about(ErrorKind::UnknownPreset, name),
            )
        }),
{
    presets_are_found_by_name(state.settings.presets, name);
    removing_is_lookup_update(state.settings.presets, name);
    if has_name(state.settings.presets, name) {
        crate::config::lemma_removed_length(state.settings.presets, name);
    }
}

/// `preset list` shows the names of the presets in their order, each with a line feed behind it.
pub proof fn listing_shows_every_name(
    state: RuntimeView,
    latitude: Seq<char>,
    longitude: Seq<char>,
)
    ensures
        ({
            let next = next_of(TaskView::PresetList { json: false }, state, latitude, longitude);
            let presets = state.settings.presets;
            &&& presets.len() == 0 ==> next == Ok::<NextView, ErrorView>(
                NextView::Show("(no presets)\n"@),
            )
            &&& presets.len() == 1 ==> next == Ok::<NextView, ErrorView>(
                NextView::Show(presets[0].name + "\n"@),
            )
            &&& presets.len() > 1 ==> (next matches Ok(NextView::Show(text)) && next_of(
                TaskView::PresetList { json: false },
                RuntimeView {
                    settings: SettingsView { presets: presets.drop_last(), ..state.settings },
                    ..state
                },
                latitude,
                longitude,
            ) matches Ok(NextView::Show(shorter)) && text == shorter + presets.last().name + "\n"@)
            &&& next_of(TaskView::PresetList { json: true }, state, latitude, longitude) == Ok::<
                NextView,
                ErrorView,
            >(NextView::ShowPresets(state))
        }),
{
    let presets = state.settings.presets;
    if presets.len() > 0 {
        let names = names_of(presets);
        assert(names.drop_last() =~= names_of(presets.drop_last()));
        assert(names.last() == presets.last().name);
        if presets.len() == 1 {
            assert(lines_text(names.drop_last()) =~= Seq::<char>::empty());
            assert(Seq::<char>::empty() + presets[0].name =~= presets[0].name);
        }
    }
}

/// The values of options come into their places, and what has no option stays as it was. A level by
/// hand turns the filter on and the mode to manual, unless options for these say otherwise.
pub proof fn options_come_into_their_places(before: SettingsView, options: SetOptionsView)
    ensures
        ({
            let after = options_applied(before, options);
            let by_hand = options.warmth is Some || options.brightness is Some;
            &&& options.warmth matches Some(given) ==> after.manual.warmth == given
            &&& options.warmth is None ==> after.manual.warmth == before.manual.warmth
            &&& options.brightness matches Some(given) ==> after.manual.brightness == given
            &&& options.brightness is None ==> after.manual.brightness == before.manual.brightness
            &&& options.day_warmth matches Some(given) ==> after.schedule.day.warmth == given
            &&& options.day_warmth is None ==> after.schedule.day.warmth == before.schedule.day.warmth
            &&& options.day_brightness matches Some(given) ==> after.schedule.day.brightness == given
            &&& options.day_brightness is None ==> after.schedule.day.brightness == before.schedule.day.brightness
            &&& options.night_warmth matches Some(given) ==> after.schedule.night.warmth == given
            &&& options.night_warmth is None ==> after.schedule.night.warmth == before.schedule.night.warmth
            &&& options.night_brightness matches Some(given) ==> after.schedule.night.brightness == given
            &&& options.night_brightness is None ==> after.schedule.night.brightness == before.schedule.night.brightness
            &&& options.night_start matches Some(given) ==> after.schedule.night_start == given
            &&& options.night_start is None ==> after.schedule.night_start == before.schedule.night_start
            &&& options.day_start matches Some(given) ==> after.schedule.day_start == given
            &&& options.day_start is None ==> after.schedule.day_start == before.schedule.day_start
            &&& options.transition matches Some(given) ==> after.schedule.transition_minutes == given
            &&& options.transition is None ==> after.schedule.transition_minutes == before.schedule.transition_minutes
            &&& options.timing matches Some(given) ==> after.schedule.timing == given
            &&& options.timing is None ==> after.schedule.timing == before.schedule.timing
            &&& options.latitude matches Some(given) ==> after.schedule.latitude == given
            &&& options.latitude is None ==> after.schedule.latitude == before.schedule.latitude
            &&& options.longitude matches Some(given) ==> after.schedule.longitude == given
            &&& options.longitude is None ==> after.schedule.longitude == before.schedule.longitude
            &&& options.enabled matches Some(given) ==> after.enabled == given
            &&& options.enabled is None && by_hand ==> after.enabled
            &&& options.enabled is None && !by_hand ==> after.enabled == before.enabled
            &&& options.automatic matches Some(given) ==> after.automatic == given
            &&& options.automatic is None && by_hand ==> !after.automatic
            &&& options.automatic is None && !by_hand ==> after.automatic == before.automatic
            &&& after.version == before.version
            &&& after.presets == before.presets
        }),
{
}

/// `set` sends the settings of the state with its options applied if they are valid then, and fails
/// if they are not.
pub proof fn setting_sends_the_changed_settings(
    state: RuntimeView,
    options: SetOptionsView,
    json: bool,
    latitude: Seq<char>,
    longitude: Seq<char>,
)
    ensures
        ({
            let next = next_of(TaskView::Change { options, json }, state, latitude, longitude);
            let wanted = options_applied(state.settings, options);
            &&& settings_fault(wanted) is None ==> next == Ok::<NextView, ErrorView>(
                NextView::Replace { settings: wanted, json },
            )
            &&& settings_fault(wanted) is Some ==> next is Err
        }),
{
    let wanted = options_applied(state.settings, options);
    if settings_fault(wanted) is None {
        assert(applied_fault(wanted, options) is None);
    }
}

/// `apply` runs a session on the settings of a first start with its options applied and the filter
/// on, if these are valid. It has nothing to run without options, and neither prints the state nor
/// runs with the filter off.
pub proof fn applying_runs_the_changed_defaults(
    args: Seq<Seq<char>>,
    numbers: Seq<Option<Coordinate>>,
    options: SetOptionsView,
    json: bool,
)
    requires
        options_of(args, numbers, "apply"@) == taken(options, json),
    ensures
        ({
            let plan = plan_of("apply"@, args, numbers);
            let wanted = SettingsView {
                enabled: true,
                ..options_applied(default_settings(), options)
            };
            let runs = !json && options != no_options() && options.enabled != Some(false)
                && settings_fault(wanted) is None;
            &&& runs ==> plan == Ok::<PlanView, ErrorView>(PlanView::Session(wanted))
            &&& !runs ==> plan is Err
        }),
{
    lemma_commands();
    reveal_strlit("apply");
    reveal_strlit("export");
    reveal_strlit("status");
    reveal_strlit("enable");
    reveal_strlit("disable");
    reveal_strlit("toggle");
    reveal_strlit("set");
    reveal_strlit("preset");
    assert("apply"@.len() == 5);
    assert("export"@.len() == 6);
    assert("status"@.len() == 6);
    assert("enable"@.len() == 6);
    assert("disable"@.len() == 7);
    assert("toggle"@.len() == 6);
    assert("set"@.len() == 3);
    assert("preset"@.len() == 6);
    let changed = options_applied(default_settings(), options);
    let wanted = SettingsView { enabled: true, ..changed };
    if settings_fault(wanted) is None {
        assert(applied_fault(changed, options) is None);
    }
}

/// `status` asks for the state and changes nothing; `enable` and `disable` send the state's settings
/// with the filter on or off if it is not already; `toggle` sends them with the filter turned
/// round. Nothing else changes.
pub proof fn switching_sends_the_switch_alone(
    state: RuntimeView,
    enabled: bool,
    json: bool,
    latitude: Seq<char>,
    longitude: Seq<char>,
)
    ensures
        ({
            let before = state.settings;
            let next = next_of(TaskView::Enable { enabled, json }, state, latitude, longitude);
            &&& before.enabled != enabled ==> next == Ok::<NextView, ErrorView>(
                NextView::Replace { settings: SettingsView { enabled, ..before }, json },
            )
            &&& before.enabled == enabled ==> next == Ok::<NextView, ErrorView>(
                if json {
                    NextView::ShowState(state)
                } else {
                    NextView::Finish
                },
            )
            &&& next_of(TaskView::Toggle { json }, state, latitude, longitude) == Ok::<
                NextView,
                ErrorView,
            >(
                NextView::Replace {
                    settings: SettingsView { enabled: !before.enabled, ..before },
                    json,
                },
            )
            &&& next_of(TaskView::Status { json }, state, latitude, longitude) matches Ok(shown)
                && if json {
                shown == NextView::ShowState(state)
            } else {
                shown is Show
            }
        }),
{
}

/// Without arguments, `status`, `enable`, `disable` and `toggle` ask for what they are called, and
/// with `--json` alone for the same with the state printed. Any other argument asks for help or is
/// refused.
pub proof fn plain_commands_ask_for_what_they_are_called(
    numbers: Seq<Option<Coordinate>>,
    json: bool,
    word: Seq<char>,
)
    ensures
        word != "--json"@ && word != "--help"@ && word != "-h"@ ==> plan_of(
            "status"@,
            seq![word],
            numbers,
        ) is Err && plan_of("enable"@, seq![word], numbers) is Err && plan_of(
            "disable"@,
            seq![word],
            numbers,
        ) is Err && plan_of("toggle"@, seq![word], numbers) is Err,
        ({
            let args = if json {
                seq!["--json"@]
            } else {
                Seq::empty()
            };
            &&& plan_of("status"@, args, numbers) == Ok::<PlanView, ErrorView>(
                PlanView::Query(TaskView::Status { json }),
            )
            &&& plan_of("enable"@, args, numbers) == Ok::<PlanView, ErrorView>(
                PlanView::Query(TaskView::Enable { enabled: true, json }),
            )
            &&& plan_of("disable"@, args, numbers) == Ok::<PlanView, ErrorView>(
                PlanView::Query(TaskView::Enable { enabled: false, json }),
            )
            &&& plan_of("toggle"@, args, numbers) == Ok::<PlanView, ErrorView>(
                PlanView::Query(TaskView::Toggle { json }),
            )
        }),
{
    lemma_commands();
    reveal_with_fuel(flags_from, 3);
}

proof fn lemma_commands()
    ensures
        "status"@ != "enable"@,
        "status"@ != "disable"@,
        "status"@ != "toggle"@,
        "enable"@ != "disable"@,
        "enable"@ != "toggle"@,
        "disable"@ != "toggle"@,
        "preset"@ != "status"@,
        "preset"@ != "enable"@,
        "preset"@ != "disable"@,
        "preset"@ != "toggle"@,
        "preset"@ != "set"@,
        "set"@ != "status"@,
        "set"@ != "enable"@,
        "set"@ != "disable"@,
        "set"@ != "toggle"@,
{
    reveal_strlit("status");
    reveal_strlit("enable");
    reveal_strlit("disable");
    reveal_strlit("toggle");
    reveal_strlit("preset");
    reveal_strlit("set");
    assert("status"@.len() == 6 && "status"@[0] == 's');
    assert("enable"@.len() == 6 && "enable"@[0] == 'e');
    assert("disable"@.len() == 7);
    assert("toggle"@.len() == 6 && "toggle"@[0] == 't');
    assert("preset"@.len() == 6 && "preset"@[0] == 'p');
    assert("set"@.len() == 3);
}

/// `preset save`, `apply`, `delete` and `rm` with a name that does not start with a dash ask for
/// that with the preset of the name, and `preset list` asks for the presets.
pub proof fn preset_commands_ask_for_what_they_are_called(
    name: Seq<char>,
    numbers: Seq<Option<Coordinate>>,
)
    requires
        !is_flag(name),
    ensures
        plan_of("preset"@, seq!["save"@, name], numbers) == Ok::<PlanView, ErrorView>(
            PlanView::Query(TaskView::PresetSave { name, json: false }),
        ),
        plan_of("preset"@, seq!["apply"@, name], numbers) == Ok::<PlanView, ErrorView>(
            PlanView::Query(TaskView::PresetApply { name, json: false }),
        ),
        plan_of("preset"@, seq!["delete"@, name], numbers) == Ok::<PlanView, ErrorView>(
            PlanView::Query(TaskView::PresetDelete { name, json: false }),
        ),
        plan_of("preset"@, seq!["rm"@, name], numbers) == Ok::<PlanView, ErrorView>(
            PlanView::Query(TaskView::PresetDelete { name, json: false }),
        ),
        plan_of("preset"@, seq!["list"@], numbers) == Ok::<PlanView, ErrorView>(
            PlanView::Query(TaskView::PresetList { json: false }),
        ),
{
    lemma_commands();
    reveal_strlit("--json");
    reveal_strlit("--help");
    reveal_strlit("-h");
    assert(is_flag("--json"@) && is_flag("--help"@) && is_flag("-h"@));
    reveal_strlit("save");
    reveal_strlit("apply");
    reveal_strlit("delete");
    reveal_strlit("rm");
    reveal_strlit("list");
    assert("save"@.len() == 4 && "save"@[0] == 's');
    assert("list"@.len() == 4 && "list"@[0] == 'l');
    assert("apply"@.len() == 5 && "apply"@[0] == 'a');
    assert("delete"@.len() == 6 && "delete"@[0] == 'd');
    assert("rm"@.len() == 2 && "rm"@[0] == 'r');
    reveal_with_fuel(name_from, 3);
    reveal_with_fuel(flags_from, 2);
    assert(seq!["save"@, name].skip(1) =~= seq![name]);
    assert(seq!["apply"@, name].skip(1) =~= seq![name]);
    assert(seq!["delete"@, name].skip(1) =~= seq![name]);
    assert(seq!["rm"@, name].skip(1) =~= seq![name]);
    assert(seq!["list"@].skip(1) =~= Seq::<Seq<char>>::empty());
}

/// A percentage within a minimum and one hundred that a text reads as.
pub open spec fn percent_read(value: Seq<char>, least: int) -> Option<u8> {
    match parsed_number(value, 255) {
        Ok(n) => if least <= n <= 100 {
            Some(n as u8)
        } else {
            None
        },
        Err(_) => None,
    }
}

/// A time of day, as it is written.
pub open spec fn time_read(value: Seq<char>) -> Option<Seq<char>> {
    if time_of(value) is Ok {
        Some(value)
    } else {
        None
    }
}

/// A number of minutes up to four hours that a text reads as.
pub open spec fn transition_read(value: Seq<char>) -> Option<u16> {
    match parsed_number(value, 65535) {
        Ok(n) => if n <= 240 {
            Some(n as u16)
        } else {
            None
        },
        Err(_) => None,
    }
}

/// A mode by its name: whether it is the automatic one.
pub open spec fn mode_read(value: Seq<char>) -> Option<bool> {
    if value == "manual"@ {
        Some(false)
    } else if value == "auto"@ || value == "automatic"@ {
        Some(true)
    } else {
        None
    }
}

/// A timing by its name.
pub open spec fn timing_read(value: Seq<char>) -> Option<ScheduleTiming> {
    if value == "sun"@ || value == "location"@ {
        Some(ScheduleTiming::Location)
    } else if value == "clock"@ || value == "fixed"@ {
        Some(ScheduleTiming::Fixed)
    } else {
        None
    }
}

/// An angle that a text reads as, if it is within a limit on either side of zero.
pub open spec fn angle_read(number: Option<Coordinate>, limit: u64) -> Option<Coordinate> {
    match number {
        Some(angle) => if angle.bits % 0x8000_0000_0000_0000 <= limit {
            Some(angle)
        } else {
            None
        },
        None => None,
    }
}

/// Options that were read.
pub open spec fn taken(options: SetOptionsView, json: bool) -> Result<SetParseView, ErrorView> {
    Ok(SetParseView::Options { options, json })
}

/// The arguments of `set` and `apply` are read one behind the other: behind arguments that were
/// read, an option with its value sets that value and nothing else, if the value is legal, and is
/// refused if it is not.
pub proof fn options_set_their_value(
    args: Seq<Seq<char>>,
    numbers: Seq<Option<Coordinate>>,
    command: Seq<char>,
    options: SetOptionsView,
    json: bool,
    word: Seq<char>,
    value: Seq<char>,
    number: Option<Coordinate>,
)
    requires
        numbers.len() == args.len(),
        options_of(args, numbers, command) == taken(options, json),
    ensures
        ({
            let after = options_of(
                args + seq![word, value],
                numbers + seq![None, number],
                command,
            );
            &&& word == "--warmth"@ ==> match percent_read(value, 0) {
                Some(n) => after == taken(SetOptionsView { warmth: Some(n), ..options }, json),
                None => after is Err,
            }
            &&& word == "--brightness"@ ==> match percent_read(value, 10) {
                Some(n) => after == taken(SetOptionsView { brightness: Some(n), ..options }, json),
                None => after is Err,
            }
            &&& word == "--day-warmth"@ ==> match percent_read(value, 0) {
                Some(n) => after == taken(SetOptionsView { day_warmth: Some(n), ..options }, json),
                None => after is Err,
            }
            &&& word == "--day-brightness"@ ==> match percent_read(value, 10) {
                Some(n) => after == taken(SetOptionsView { day_brightness: Some(n), ..options }, json),
                None => after is Err,
            }
            &&& word == "--night-warmth"@ ==> match percent_read(value, 0) {
                Some(n) => after == taken(SetOptionsView { night_warmth: Some(n), ..options }, json),
                None => after is Err,
            }
            &&& word == "--night-brightness"@ ==> match percent_read(value, 10) {
                Some(n) => after == taken(SetOptionsView { night_brightness: Some(n), ..options }, json),
                None => after is Err,
            }
            &&& word == "--night-start"@ ==> match time_read(value) {
                Some(n) => after == taken(SetOptionsView { night_start: Some(n), ..options }, json),
                None => after is Err,
            }
            &&& word == "--day-start"@ ==> match time_read(value) {
                Some(n) => after == taken(SetOptionsView { day_start: Some(n), ..options }, json),
                None => after is Err,
            }
            &&& word == "--transition"@ ==> match transition_read(value) {
                Some(n) => after == taken(SetOptionsView { transition: Some(n), ..options }, json),
                None => after is Err,
            }
            &&& word == "--mode"@ ==> match mode_read(value) {
                Some(n) => after == taken(SetOptionsView { automatic: Some(n), ..options }, json),
                None => after is Err,
            }
            &&& word == "--timing"@ ==> match timing_read(value) {
                Some(n) => after == taken(SetOptionsView { timing: Some(n), ..options }, json),
                None => after is Err,
            }
            &&& word == "--latitude"@ ==> match angle_read(number, POLE) {
                Some(n) => after == taken(SetOptionsView { latitude: Some(n), ..options }, json),
                None => after is Err,
            }
            &&& word == "--lat"@ ==> match angle_read(number, POLE) {
                Some(n) => after == taken(SetOptionsView { latitude: Some(n), ..options }, json),
                None => after is Err,
            }
            &&& word == "--longitude"@ ==> match angle_read(number, ANTIMERIDIAN) {
                Some(n) => after == taken(SetOptionsView { longitude: Some(n), ..options }, json),
                None => after is Err,
            }
            &&& word == "--lon"@ ==> match angle_read(number, ANTIMERIDIAN) {
                Some(n) => after == taken(SetOptionsView { longitude: Some(n), ..options }, json),
                None => after is Err,
            }
        }),
{
    lemma_flags();
    lemma_more_flags();
    lemma_mode_words(value);
    lemma_read_behind(args, numbers, seq![word, value], seq![None, number], command, 0, no_options(), false);
    reveal_with_fuel(options_from, 2);
    let all = args + seq![word, value];
    let at = args.len() as int;
    assert(all[at] == word);
    assert(all[at + 1] == value);
    assert((numbers + seq![None, number])[at + 1] == number);
}

/// Behind arguments that were read, `--on` and `--off` ask for the switch and `--json` for the state
/// to be printed; what is no option is refused.
pub proof fn flags_set_what_they_are_called(
    args: Seq<Seq<char>>,
    numbers: Seq<Option<Coordinate>>,
    command: Seq<char>,
    options: SetOptionsView,
    json: bool,
    word: Seq<char>,
)
    requires
        numbers.len() == args.len(),
        options_of(args, numbers, command) == taken(options, json),
    ensures
        ({
            let after = options_of(args + seq![word], numbers + seq![None], command);
            &&& word == "--on"@ ==> after == taken(
                SetOptionsView { enabled: Some(true), ..options },
                json,
            )
            &&& word == "--off"@ ==> after == taken(
                SetOptionsView { enabled: Some(false), ..options },
                json,
            )
            &&& word == "--json"@ ==> after == taken(options, true)
            &&& !is_flag(word) ==> after is Err
        }),
{
    lemma_flags();
    lemma_more_flags();
    lemma_read_behind(args, numbers, seq![word], seq![None], command, 0, no_options(), false);
    reveal_with_fuel(options_from, 2);
    assert((args + seq![word])[args.len() as int] == word);
    if !is_flag(word) {
        lemma_flags_start_with_a_dash(word);
    }
}

/// Without arguments nothing is asked for, and `set` is refused then.
pub proof fn no_arguments_ask_for_nothing(command: Seq<char>)
    ensures
        options_of(Seq::empty(), Seq::empty(), command) == taken(
            SetOptionsView {
                enabled: None,
                automatic: None,
                warmth: None,
                brightness: None,
                day_warmth: None,
                day_brightness: None,
                night_warmth: None,
                night_brightness: None,
                night_start: None,
                day_start: None,
                transition: None,
                timing: None,
                latitude: None,
                longitude: None,
            },
            false,
        ),
        plan_of("set"@, Seq::empty(), Seq::empty()) is Err,
{
    reveal_with_fuel(options_from, 1);
    lemma_commands();
}

/// `set` asks for the change that its options come to.
pub proof fn setting_asks_for_its_options(
    args: Seq<Seq<char>>,
    numbers: Seq<Option<Coordinate>>,
    options: SetOptionsView,
    json: bool,
)
    requires
        options_of(args, numbers, "set"@) == taken(options, json),
        options.enabled is Some || options.automatic is Some || options.warmth is Some
            || options.brightness is Some || options.day_warmth is Some
            || options.day_brightness is Some || options.night_warmth is Some
            || options.night_brightness is Some || options.night_start is Some
            || options.day_start is Some || options.transition is Some || options.timing is Some
            || options.latitude is Some || options.longitude is Some,
    ensures
        plan_of("set"@, args, numbers) == Ok::<PlanView, ErrorView>(
            PlanView::Query(TaskView::Change { options, json }),
        ),
{
    lemma_commands();
}

proof fn lemma_read_behind(
    args: Seq<Seq<char>>,
    numbers: Seq<Option<Coordinate>>,
    more: Seq<Seq<char>>,
    more_numbers: Seq<Option<Coordinate>>,
    command: Seq<char>,
    index: int,
    options: SetOptionsView,
    json: bool,
)
    requires
        0 <= index <= args.len(),
        numbers.len() == args.len(),
    ensures
        options_from(args, numbers, command, index, options, json) matches Ok(
            SetParseView::Options { options: o, json: j },
        ) ==> options_from(
            args + more,
            numbers + more_numbers,
            command,
            index,
            options,
            json,
        ) == options_from(
            args + more,
            numbers + more_numbers,
            command,
            args.len() as int,
            o,
            j,
        ),
    decreases args.len() - index,
{
    reveal_with_fuel(options_from, 2);
    if index < args.len() {
        let all = args + more;
        let every = numbers + more_numbers;
        assert(all[index] == args[index]);
        match flag_of(args[index]) {
            None => {},
            Some(Flag::Help) => {},
            Some(Flag::Json) => {
                lemma_read_behind(args, numbers, more, more_numbers, command, index + 1, options, true);
            },
            Some(Flag::On) => {
                let o = SetOptionsView { enabled: Some(true), ..options };
                lemma_read_behind(args, numbers, more, more_numbers, command, index + 1, o, json);
            },
            Some(Flag::Off) => {
                let o = SetOptionsView { enabled: Some(false), ..options };
                lemma_read_behind(args, numbers, more, more_numbers, command, index + 1, o, json);
            },
            Some(flag) => {
                if index + 1 < args.len() {
                    assert(all[index + 1] == args[index + 1]);
                    assert(every[index + 1] == numbers[index + 1]);
                    if let Ok(o) = with_option(options, flag, args[index + 1], numbers[index + 1]) {
                        lemma_read_behind(
                            args,
                            numbers,
                            more,
                            more_numbers,
                            command,
                            index + 2,
                            o,
                            json,
                        );
                    }
                }
            },
        }
    }
}

proof fn lemma_mode_words(value: Seq<char>)
    ensures
        mode_read(value) == (match mode_of(value) {
            Ok(automatic) => Some(automatic),
            Err(_) => None,
        }),
        timing_read(value) == (match timing_of(value) {
            Ok(timing) => Some(timing),
            Err(_) => None,
        }),
{
    reveal_strlit("automatic");
    reveal_strlit("auto");
    reveal_strlit("manual");
    reveal_strlit("fixed");
    reveal_strlit("clock");
    reveal_strlit("location");
    reveal_strlit("sun");
    assert("automatic"@.len() == 9);
    assert("auto"@.len() == 4);
    assert("manual"@.len() == 6);
    assert("fixed"@.len() == 5);
    assert("clock"@.len() == 5);
    assert("location"@.len() == 8);
    assert("sun"@.len() == 3);
}

proof fn lemma_more_flags()
    ensures
        flag_of("--json"@) == Some(Flag::Json),
        flag_of("--on"@) == Some(Flag::On),
        flag_of("--off"@) == Some(Flag::Off),
        flag_of("--lat"@) == Some(Flag::Latitude),
        flag_of("--lon"@) == Some(Flag::Longitude),
{
    reveal_strlit("--help");
    reveal_strlit("-h");
    reveal_strlit("--json");
    reveal_strlit("--on");
    reveal_strlit("--off");
    reveal_strlit("--mode");
    reveal_strlit("--warmth");
    reveal_strlit("--brightness");
    reveal_strlit("--day-warmth");
    reveal_strlit("--day-brightness");
    reveal_strlit("--night-warmth");
    reveal_strlit("--night-brightness");
    reveal_strlit("--night-start");
    reveal_strlit("--day-start");
    reveal_strlit("--transition");
    reveal_strlit("--timing");
    reveal_strlit("--latitude");
    reveal_strlit("--lat");
    reveal_strlit("--longitude");
    reveal_strlit("--lon");
    assert("--help"@.len() == 6);
    assert("-h"@.len() == 2);
    assert("--json"@.len() == 6);
    assert("--on"@.len() == 4);
    assert("--off"@.len() == 5);
    assert("--mode"@.len() == 6);
    assert("--warmth"@.len() == 8);
    assert("--brightness"@.len() == 12);
    assert("--day-warmth"@.len() == 12);
    assert("--day-brightness"@.len() == 16);
    assert("--night-warmth"@.len() == 14);
    assert("--night-brightness"@.len() == 18);
    assert("--night-start"@.len() == 13);
    assert("--day-start"@.len() == 11);
    assert("--transition"@.len() == 12);
    assert("--timing"@.len() == 8);
    assert("--latitude"@.len() == 10);
    assert("--lat"@.len() == 5);
    assert("--longitude"@.len() == 11);
    assert("--lon"@.len() == 5);
    assert("--help"@[2] == 'h');
    assert("--json"@[2] == 'j');
    assert("--mode"@[2] == 'm');
    assert("--off"@[2] == 'o');
    assert("--lat"@[2] == 'l');
    assert("--lon"@[2] == 'l');
    assert("--lat"@[3] == 'a');
    assert("--lon"@[3] == 'o');
    assert("--warmth"@[2] == 'w');
    assert("--timing"@[2] == 't');
    assert("--brightness"@[2] == 'b');
    assert("--day-warmth"@[2] == 'd');
    assert("--transition"@[2] == 't');
    assert("--day-start"@[2] == 'd');
    assert("--longitude"@[2] == 'l');
}

proof fn lemma_flags_start_with_a_dash(word: Seq<char>)
    ensures
        flag_of(word) is Some ==> is_flag(word),
{
    reveal_strlit("--help");
    reveal_strlit("-h");
    reveal_strlit("--json");
    reveal_strlit("--on");
    reveal_strlit("--off");
    reveal_strlit("--mode");
    reveal_strlit("--warmth");
    reveal_strlit("--brightness");
    reveal_strlit("--day-warmth");
    reveal_strlit("--day-brightness");
    reveal_strlit("--night-warmth");
    reveal_strlit("--night-brightness");
    reveal_strlit("--night-start");
    reveal_strlit("--day-start");
    reveal_strlit("--transition");
    reveal_strlit("--timing");
    reveal_strlit("--latitude");
    reveal_strlit("--lat");
    reveal_strlit("--longitude");
    reveal_strlit("--lon");
}

proof fn lemma_occurs_behind(text: Seq<char>, label: Seq<char>, value: Seq<char>)
    ensures
        occurs_in(label + value, text + label + value),
{
    let whole = text + label + value;
    let part = label + value;
    assert(whole.subrange(text.len() as int, text.len() as int + part.len()) =~= part);
    assert(occurs_at(part, whole, text.len() as int));
}

proof fn lemma_occurs_before(text: Seq<char>, more: Seq<char>)
    ensures
        forall|part: Seq<char>| #[trigger]
            occurs_in(part, text) ==> occurs_in(part, text + more),
{
    assert forall|part: Seq<char>| #[trigger] occurs_in(part, text) implies occurs_in(
        part,
        text + more,
    ) by {
        let i = choose|i: int| occurs_at(part, text, i);
        assert((text + more).subrange(i, i + part.len()) =~= text.subrange(i, i + part.len()));
        assert(occurs_at(part, text + more, i));
    }
}

proof fn lemma_row(text: Seq<char>, label: Seq<char>, value: Seq<char>)
    ensures
        occurs_in(label + value, text + label + value),
        forall|part: Seq<char>| #[trigger]
            occurs_in(part, text) ==> occurs_in(part, text + label + value),
{
    lemma_occurs_behind(text, label, value);
    lemma_occurs_before(text, label);
    lemma_occurs_before(text + label, value);
}

/// The status in words tells of the switch, the mode, the levels in force, those by hand, of the day
/// and of the night, each on a line of its name, and of the presets, the backend, the outputs and
/// the conflict.
pub proof fn status_tells_of_the_state(
    state: RuntimeView,
    latitude: Seq<char>,
    longitude: Seq<char>,
)
    ensures
        ({
            let text = status_text(state, latitude, longitude);
            let settings = state.settings;
            let levels = |warmth: u8, brightness: u8|
                "warmth "@ + decimal_text(warmth as int) + "% · brightness "@ + decimal_text(
                    brightness as int,
                ) + "%"@;
            &&& occurs_in(
                "Filter:     "@ + if settings.enabled {
                    "on"@
                } else {
                    "off"@
                },
                text,
            )
            &&& occurs_in(
                "\nMode:       "@ + if settings.automatic {
                    "automatic"@
                } else {
                    "manual"@
                },
                text,
            )
            &&& occurs_in(
                "\nActive:     "@ + levels(state.active_warmth, state.active_brightness),
                text,
            )
            &&& occurs_in(
                "\nManual:     "@ + levels(settings.manual.warmth, settings.manual.brightness),
                text,
            )
            &&& occurs_in(
                "\nDay:        "@ + levels(
                    settings.schedule.day.warmth,
                    settings.schedule.day.brightness,
                ),
                text,
            )
            &&& occurs_in(
                "\nNight:      "@ + levels(
                    settings.schedule.night.warmth,
                    settings.schedule.night.brightness,
                ),
                text,
            )
            &&& occurs_in(
                " · fade "@ + decimal_text(settings.schedule.transition_minutes as int),
                text,
            )
            &&& occurs_in("\nBackend:    "@ + state.backend, text)
            &&& state.outputs.len() > 0 ==> occurs_in(
                "\nOutputs:    "@ + joined(state.outputs, ", "@),
                text,
            )
            &&& state.outputs.len() == 0 ==> occurs_in("\nOutputs:    "@ + "(none)"@, text)
            &&& settings.presets.len() > 0 ==> occurs_in(
                "m\nPresets:    "@ + joined(names_of(settings.presets), ", "@),
                text,
            )
            &&& state.conflict matches Some(conflict) ==> occurs_in(
                "Conflict:   "@ + conflict,
                text,
            )
            &&& settings.schedule.timing == ScheduleTiming::Fixed ==> occurs_in(
                "\nSchedule:   "@ + ("fixed · night "@ + settings.schedule.night_start + " · day "@
                    + settings.schedule.day_start),
                text,
            )
            &&& settings.schedule.timing == ScheduleTiming::Location ==> occurs_in(
                "\nSchedule:   "@ + ("location · "@ + latitude + "°, "@ + longitude
                    + "° (fallback night "@ + settings.schedule.night_start + " · day "@
                    + settings.schedule.day_start + ")"@),
                text,
            )
        }),
{
    let settings = state.settings;
    let schedule = settings.schedule;
    let filter = if settings.enabled {
        "on"@
    } else {
        "off"@
    };
    let mode = if settings.automatic {
        "automatic"@
    } else {
        "manual"@
    };
    let none = Seq::<char>::empty();
    assert(none + "Filter:     "@ =~= "Filter:     "@);
    lemma_row(none, "Filter:     "@, filter);
    let t1 = "Filter:     "@ + filter;
    lemma_row(t1, "\nMode:       "@, mode);
    let t2 = t1 + "\nMode:       "@ + mode;
    let active = levels_text(state.active_warmth, state.active_brightness);
    lemma_row(t2, "\nActive:     "@, active);
    let t3 = t2 + "\nActive:     "@ + active;
    let manual = levels_text(settings.manual.warmth, settings.manual.brightness);
    lemma_row(t3, "\nManual:     "@, manual);
    let t4 = t3 + "\nManual:     "@ + manual;
    let day = levels_text(schedule.day.warmth, schedule.day.brightness);
    lemma_row(t4, "\nDay:        "@, day);
    let t5 = t4 + "\nDay:        "@ + day;
    let night = levels_text(schedule.night.warmth, schedule.night.brightness);
    lemma_row(t5, "\nNight:      "@, night);
    let t6 = t5 + "\nNight:      "@ + night;
    let timing = timing_text(schedule, latitude, longitude);
    lemma_row(t6, "\nSchedule:   "@, timing);
    let t7 = t6 + "\nSchedule:   "@ + timing;
    let fade = decimal_text(schedule.transition_minutes as int);
    lemma_row(t7, " · fade "@, fade);
    let t8 = t7 + " · fade "@ + fade;
    let presets = list_text(names_of(settings.presets));
    lemma_row(t8, "m\nPresets:    "@, presets);
    let t9 = t8 + "m\nPresets:    "@ + presets;
    lemma_row(t9, "\nBackend:    "@, state.backend);
    let t10 = t9 + "\nBackend:    "@ + state.backend;
    let outputs = list_text(state.outputs);
    lemma_row(t10, "\nOutputs:    "@, outputs);
    let t11 = t10 + "\nOutputs:    "@ + outputs;
    lemma_occurs_before(t11, "\n"@);
    let t12 = t11 + "\n"@;
    if let Some(conflict) = state.conflict {
        lemma_row(t12, "Conflict:   "@, conflict);
        lemma_occurs_before(t12 + "Conflict:   "@ + conflict, "\n"@);
    }
}

/// `export preset` with a name that does not start with a dash asks for the preset of that name.
pub proof fn exporting_asks_for_the_preset(name: Seq<char>, numbers: Seq<Option<Coordinate>>)
    requires
        !is_flag(name),
    ensures
        plan_of("export"@, seq!["preset"@, name], numbers) == Ok::<PlanView, ErrorView>(
            PlanView::Export(name),
        ),
{
    reveal_strlit("export");
    reveal_strlit("status");
    reveal_strlit("enable");
    reveal_strlit("disable");
    reveal_strlit("toggle");
    reveal_strlit("set");
    reveal_strlit("preset");
    reveal_strlit("--help");
    reveal_strlit("-h");
    assert("export"@.len() == 6 && "export"@[0] == 'e' && "export"@[1] == 'x');
    assert("enable"@[1] == 'n');
    assert("status"@[0] == 's');
    assert("disable"@.len() == 7);
    assert("toggle"@[0] == 't');
    assert("set"@.len() == 3);
    assert("preset"@[0] == 'p');
    assert(is_flag("--help"@) && is_flag("-h"@));
    reveal_with_fuel(export_from, 3);
    assert(seq!["preset"@, name].skip(1) =~= seq![name]);
}

/// Without arguments the program opens the settings; `daemon` alone manages the service, `--daemon`
/// alone is the service; the plain commands and `set` are run with whatever follows them, and the
/// ways to ask for help show it. Everything else is refused.
pub proof fn arguments_say_what_to_run(args: Seq<Seq<char>>)
    ensures
        args.len() == 0 ==> start_of(args) == Ok::<Start, ErrorView>(Start::Settings),
        args.len() > 0 ==> {
            let first = args[0];
            let alone = args.len() == 1;
            let command = first == "status"@ || first == "set"@ || first == "enable"@ || first
                == "disable"@ || first == "toggle"@;
            let help = first == "--help"@ || first == "-h"@ || first == "help"@;
            &&& alone && first == "daemon"@ ==> start_of(args) == Ok::<Start, ErrorView>(
                Start::Service,
            )
            &&& alone && first == "--daemon"@ ==> start_of(args) == Ok::<Start, ErrorView>(
                Start::Daemon,
            )
            &&& command ==> start_of(args) == Ok::<Start, ErrorView>(Start::Command)
            &&& alone && help ==> start_of(args) == Ok::<Start, ErrorView>(Start::Help)
            &&& !command && !(alone && (help || first == "daemon"@ || first == "--daemon"@))
                ==> start_of(args) == Err::<Start, ErrorView>(
                fault_about(ErrorKind::UnknownArgument, first),
            )
        },
{
    reveal_strlit("daemon");
    reveal_strlit("--daemon");
    reveal_strlit("status");
    reveal_strlit("set");
    reveal_strlit("enable");
    reveal_strlit("disable");
    reveal_strlit("toggle");
    reveal_strlit("--help");
    reveal_strlit("-h");
    reveal_strlit("help");
    assert("daemon"@.len() == 6 && "daemon"@[0] == 'd');
    assert("--daemon"@.len() == 8);
    assert("status"@.len() == 6 && "status"@[0] == 's');
    assert("set"@.len() == 3);
    assert("enable"@.len() == 6 && "enable"@[0] == 'e');
    assert("disable"@.len() == 7);
    assert("toggle"@.len() == 6 && "toggle"@[0] == 't');
    assert("--help"@.len() == 6 && "--help"@[0] == '-');
    assert("-h"@.len() == 2);
    assert("help"@.len() == 4);
}

/// A failure to reach the daemon is told in full, with advice behind it unless it is about versions
/// that do not fit.
pub proof fn failures_to_connect_come_with_advice(message: Seq<char>)
    ensures
        hinted(message).take(message.len() as int) == message,
        occurs_in("outdated"@, message) || occurs_in("unsupported IPC"@, message) ==> hinted(message)
            == message,
        !occurs_in("outdated"@, message) && !occurs_in("unsupported IPC"@, message) ==> hinted(
            message,
        ).skip(message.len() as int)
            == "\nstart the background service with `waywarm daemon`, or open the settings UI first"@,
{
    assert(hinted(message).take(message.len() as int) =~= message);
    if !occurs_in("outdated"@, message) && !occurs_in("unsupported IPC"@, message) {
        assert(hinted(message).skip(message.len() as int)
            =~= "\nstart the background service with `waywarm daemon`, or open the settings UI first"@);
    }
}

/// `--json` may stand behind the name of a preset or before it, and a second name is refused.
pub proof fn names_of_presets_stand_alone(name: Seq<char>, other: Seq<char>)
    requires
        !is_flag(name),
        !is_flag(other),
    ensures
        name_from(seq![name], 0, None, false) == Ok::<Option<(Seq<char>, bool)>, ErrorView>(
            Some((name, false)),
        ),
        name_from(seq![name, "--json"@], 0, None, false) == Ok::<
            Option<(Seq<char>, bool)>,
            ErrorView,
        >(Some((name, true))),
        name_from(seq!["--json"@, name], 0, None, false) == Ok::<
            Option<(Seq<char>, bool)>,
            ErrorView,
        >(Some((name, true))),
        name_from(seq![name, other], 0, None, false) is Err,
        name_from(Seq::empty(), 0, None, false) is Err,
{
    reveal_strlit("--json");
    reveal_strlit("--help");
    reveal_strlit("-h");
    assert(is_flag("--json"@) && is_flag("--help"@) && is_flag("-h"@));
    reveal_with_fuel(name_from, 4);
}

/// A command helps with itself.
pub proof fn commands_help_with_themselves()
    ensures
        help_text("status"@) == STATUS_HELP@,
        help_text("enable"@) == ENABLE_HELP@,
        help_text("disable"@) == DISABLE_HELP@,
        help_text("toggle"@) == TOGGLE_HELP@,
        help_text("preset"@) == PRESET_HELP@,
        help_text("set"@) == SET_HELP@,
        help_text("export"@) == EXPORT_HELP@,
        help_text("apply"@) == APPLY_HELP@,
{
    lemma_commands();
    reveal_strlit("status");
    reveal_strlit("enable");
    reveal_strlit("disable");
    reveal_strlit("toggle");
    reveal_strlit("preset");
    reveal_strlit("set");
    reveal_strlit("export");
    reveal_strlit("apply");
    assert("export"@.len() == 6 && "export"@[0] == 'e' && "export"@[1] == 'x');
    assert("enable"@[1] == 'n');
    assert("status"@[0] == 's');
    assert("toggle"@[0] == 't');
    assert("preset"@[0] == 'p');
    assert("apply"@.len() == 5);
    assert("set"@.len() == 3);
    assert("disable"@.len() == 7);
}

/// An option whose value is missing is refused by its name.
pub proof fn options_need_their_value(
    args: Seq<Seq<char>>,
    numbers: Seq<Option<Coordinate>>,
    command: Seq<char>,
    options: SetOptionsView,
    json: bool,
    word: Seq<char>,
)
    requires
        numbers.len() == args.len(),
        options_of(args, numbers, command) == taken(options, json),
        word == "--mode"@ || word == "--warmth"@ || word == "--brightness"@ || word
            == "--day-warmth"@ || word == "--day-brightness"@ || word == "--night-warmth"@ || word
            == "--night-brightness"@ || word == "--night-start"@ || word == "--day-start"@ || word
            == "--transition"@ || word == "--timing"@ || word == "--latitude"@ || word
            == "--longitude"@,
    ensures
        options_of(args + seq![word], numbers + seq![None], command) == Err::<
            SetParseView,
            ErrorView,
        >(fault_named(ErrorKind::MissingValue, ""@, word)),
{
    lemma_flags();
    lemma_read_behind(args, numbers, seq![word], seq![None], command, 0, no_options(), false);
    reveal_with_fuel(options_from, 2);
    assert((args + seq![word])[args.len() as int] == word);
}

/// A plan is the one that is called for if it has the same contents, and a failure if it is the same
/// failure.
pub proof fn plans_are_the_ones_called_for(
    plan: Result<Plan, Error>,
    wanted: Result<PlanView, ErrorView>,
)
    requires
        is_plan(plan, wanted),
    ensures
        plan matches Ok(p) ==> wanted == Ok::<PlanView, ErrorView>(p@),
        plan matches Err(error) ==> wanted == Err::<PlanView, ErrorView>(error@),
{
}

/// Changed settings are accepted exactly if all three pairs of levels are valid and, where the
/// options ask for another schedule, the schedule is valid as a whole.
pub proof fn options_that_break_the_settings_are_refused(
    settings: SettingsView,
    options: SetOptionsView,
)
    ensures
        applied_fault(settings, options) is None <==> {
            let times = options.night_start is Some || options.day_start is Some
                || options.transition is Some;
            let place = options.timing is Some || options.latitude is Some || options.longitude
                is Some;
            &&& settings.manual.warmth <= 100 && 10 <= settings.manual.brightness <= 100
            &&& settings.schedule.day.warmth <= 100
            &&& 10 <= settings.schedule.day.brightness <= 100
            &&& settings.schedule.night.warmth <= 100
            &&& 10 <= settings.schedule.night.brightness <= 100
            &&& times || place ==> schedule_fault(settings.schedule) is None
        },
{
}

/// `export preset` takes a single name.
pub proof fn exporting_takes_one_name(name: Seq<char>, more: Seq<char>)
    requires
        !is_flag(name),
        !is_flag(more),
    ensures
        export_from(seq![name, more], 0, None) == Err::<Option<Seq<char>>, ErrorView>(
            fault_named(ErrorKind::UnexpectedOperand, more, "export"@),
        ),
        export_from(Seq::empty(), 0, None) == Err::<Option<Seq<char>>, ErrorView>(
            fault_named(ErrorKind::MissingPresetName, ""@, "export"@),
        ),
{
    reveal_strlit("--help");
    reveal_strlit("-h");
    assert(is_flag("--help"@) && is_flag("-h"@));
    reveal_with_fuel(export_from, 3);
}

}
