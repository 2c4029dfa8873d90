//! What clients and the daemon say to each other.

use vstd::prelude::*;

use crate::config::{Settings, SettingsView};
use crate::text::{copied, copied_option, optional, texts};

verus! {

/// The version of the protocol. Clients and daemons of different versions refuse to talk, so that
/// an upgrade cannot silently drop settings that one side does not know.
pub const IPC_VERSION: u32 = 4;

/// What a client asks.
#[derive(Debug)]
pub enum Request {
    GetState { version: u32 },
    ReplaceSettings { version: u32, settings: Settings },
}

/// A request with its texts as sequences of characters.
pub enum RequestView {
    GetState { version: u32 },
    ReplaceSettings { version: u32, settings: SettingsView },
}

impl View for Request {
    type V = RequestView;

    open spec fn view(&self) -> RequestView {
        match *self {
            Request::GetState { version } => RequestView::GetState { version },
            Request::ReplaceSettings { version, settings } => RequestView::ReplaceSettings {
                version,
                settings: settings@,
            },
        }
    }
}

impl Clone for Request {
    fn clone(&self) -> (copy: Self)
        ensures
            copy@ == self@,
    {
        match self {
            Request::GetState { version } => Request::GetState { version: *version },
            Request::ReplaceSettings { version, settings } => Request::ReplaceSettings {
                version: *version,
                settings: settings.clone(),
            },
        }
    }
}

/// What the daemon is doing.
#[derive(Debug)]
pub struct RuntimeState {
    pub settings: Settings,
    pub outputs: Vec<String>,
    pub backend: String,
    pub active_warmth: u8,
    pub active_brightness: u8,
    /// Why displays may not follow the filter.
    pub conflict: Option<String>,
}

/// A runtime state with its texts as sequences of characters.
pub struct RuntimeView {
    pub settings: SettingsView,
    pub outputs: Seq<Seq<char>>,
    pub backend: Seq<char>,
    pub active_warmth: u8,
    pub active_brightness: u8,
    pub conflict: Option<Seq<char>>,
}

impl View for RuntimeState {
    type V = RuntimeView;

    open spec fn view(&self) -> RuntimeView {
        RuntimeView {
            settings: self.settings@,
            outputs: texts(self.outputs@),
            backend: self.backend@,
            active_warmth: self.active_warmth,
            active_brightness: self.active_brightness,
            conflict: optional(self.conflict),
        }
    }
}

impl Clone for RuntimeState {
    fn clone(&self) -> (copy: Self)
        ensures
            copy@ == self@,
    {
        RuntimeState {
            settings: self.settings.clone(),
            outputs: copied(&self.outputs),
            backend: self.backend.clone(),
            active_warmth: self.active_warmth,
            active_brightness: self.active_brightness,
            conflict: copied_option(&self.conflict),
        }
    }
}

/// What the daemon answers.
#[derive(Debug)]
pub enum Response {
    State { version: u32, state: RuntimeState },
    Error { version: u32, message: String },
}

/// A response with its texts as sequences of characters.
pub enum ResponseView {
    State { version: u32, state: RuntimeView },
    Error { version: u32, message: Seq<char> },
}

impl View for Response {
    type V = ResponseView;

    open spec fn view(&self) -> ResponseView {
        match *self {
            Response::State { version, state } => ResponseView::State { version, state: state@ },
            Response::Error { version, message } => ResponseView::Error {
                version,
                message: message@,
            },
        }
    }
}

impl Clone for Response {
    fn clone(&self) -> (copy: Self)
        ensures
            copy@ == self@,
    {
        match self {
            Response::State { version, state } => Response::State {
                version: *version,
                state: state.clone(),
            },
            Response::Error { version, message } => Response::Error {
                version: *version,
                message: message.clone(),
            },
        }
    }
}

}
