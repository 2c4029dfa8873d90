//! The client side of the daemon's socket: where it is, what is sent and what a reply means.

use vstd::prelude::*;

use crate::config::{failure, path_join, path_joined, Settings};
use crate::error::{fault, fault_about, Error, ErrorKind, ErrorView};
use crate::protocol::{
    Request, RequestView, Response, ResponseView, RuntimeState, RuntimeView, IPC_VERSION,
};

verus! {

/// The directory of the daemon's socket, given the value of `XDG_RUNTIME_DIR`.
pub fn runtime_dir(base: Option<String>) -> (path: Result<String, Error>)
    ensures
        match base {
            Some(base) => path is Ok && path->Ok_0@ == path_joined(base@, "waywarm"@),
            None => failure(path) == Some(fault(ErrorKind::RuntimeDirUnset)),
        },
{
    match base {
        Some(base) => Ok(path_join(base.as_str(), "waywarm")),
        None => Err(Error::new(ErrorKind::RuntimeDirUnset)),
    }
}

/// The daemon's socket, given the value of `XDG_RUNTIME_DIR`.
pub fn socket_path(base: Option<String>) -> (path: Result<String, Error>)
    ensures
        match base {
            Some(base) => path is Ok && path->Ok_0@ == path_joined(
                path_joined(base@, "waywarm"@),
                "control.sock"@,
            ),
            None => failure(path) == Some(fault(ErrorKind::RuntimeDirUnset)),
        },
{
    match runtime_dir(base) {
        Ok(directory) => Ok(path_join(directory.as_str(), "control.sock")),
        Err(error) => Err(error),
    }
}

/// The request for the daemon's state.
pub fn state_request() -> (request: Request)
    ensures
        request@ == (RequestView::GetState { version: IPC_VERSION }),
{
    Request::GetState { version: IPC_VERSION }
}

/// The request to put settings into force.
pub fn settings_request(settings: Settings) -> (request: Request)
    ensures
        request@ == (RequestView::ReplaceSettings { version: IPC_VERSION, settings: settings@ }),
{
    Request::ReplaceSettings { version: IPC_VERSION, settings }
}

/// What a response amounts to for the client: the daemon's state, or its refusal.
pub open spec fn outcome(response: ResponseView) -> Result<RuntimeView, ErrorView> {
    match response {
        ResponseView::State { state, .. } => Ok(state),
        ResponseView::Error { message, .. } => Err(fault_about(ErrorKind::Refused, message)),
    }
}

/// The state in a response, or the daemon's refusal.
pub fn state_of(response: Response) -> (state: Result<RuntimeState, Error>)
    ensures
        match state {
            Ok(s) => outcome(response@) == Ok::<RuntimeView, ErrorView>(s@),
            Err(error) => outcome(response@) == Err::<RuntimeView, ErrorView>(error@),
        },
{
    match response {
        Response::State { state, .. } => Ok(state),
        Response::Error { message, .. } => Err(
            Error::about(ErrorKind::Refused, message.as_str()),
        ),
    }
}

/// Checks that a reply holds anything at all: a daemon that hangs up sends nothing.
pub fn check_reply(line: &str) -> (r: Result<(), Error>)
    ensures
        failure(r) == (if line@.len() == 0 {
            Some(fault(ErrorKind::NoReply))
        } else {
            None
        }),
{
    if line.is_empty() {
        return Err(Error::new(ErrorKind::NoReply));
    }
    Ok(())
}

/// A client takes the state from a response that holds one, and the daemon's words from a refusal.
pub proof fn responses_are_taken_by_their_word(version: u32, state: RuntimeView, message: Seq<char>)
    ensures
        outcome(ResponseView::State { version, state }) == Ok::<RuntimeView, ErrorView>(state),
        outcome(ResponseView::Error { version, message }) matches Err(error) && error.kind
            == ErrorKind::Refused && error.value == message,
{
}

}
