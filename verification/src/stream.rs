//! The streaming layer's decisions: backend selection by session type, the
//! shared cancel flag's lifecycle, and the per-tick choices of the polling
//! loop. The loop's runtime (spawning, sleeping, event delivery) lives with
//! the host shell; every decision it takes is made here.

use vstd::prelude::*;

use crate::model::ActiveWindow;
use crate::model::AppError;
use crate::model::StreamState;
use crate::model::XError;
use crate::model::is_sentinel;
use crate::text::str_eq;

verus! {

/// The backend chosen for one streaming session.
#[derive(Debug, Clone, Copy, PartialEq, Eq, Structural)]
pub enum Backend {
    /// Query the X server for the active window.
    X11,
    /// Query the compositor's IPC socket.
    Hyprland,
    /// Unrecognized or absent session type: the session polls nothing.
    Unsupported,
}

/// The backend that a session-type value selects.
pub open spec fn backend_for(session_type: Option<String>) -> Backend {
    match session_type {
        Some(s) => if s@ == "x11"@ {
            Backend::X11
        } else if s@ == "wayland"@ {
            Backend::Hyprland
        } else {
            Backend::Unsupported
        },
        None => Backend::Unsupported,
    }
}

/// Selects exactly one backend from the detected session type.
pub fn select_backend(session_type: &Option<String>) -> (b: Backend)
    ensures
        b == backend_for(*session_type),
{
    match session_type {
        Some(s) => {
            if str_eq(s.as_str(), "x11") {
                Backend::X11
            } else if str_eq(s.as_str(), "wayland") {
                Backend::Hyprland
            } else {
                Backend::Unsupported
            }
        },
        None => Backend::Unsupported,
    }
}

impl StreamState {
    /// The process-start state: no stop has been requested.
    pub fn new() -> (s: StreamState)
        ensures
            s.cancel_flag == false,
    {
        StreamState { cancel_flag: false }
    }
}

/// Begins a streaming session: resets the shared cancel flag and selects
/// the backend for the detected session type. An unrecognized session type
/// yields [`Backend::Unsupported`] and the session emits nothing, without
/// surfacing an error.
pub fn stream_title(state: &mut StreamState, session_type: &Option<String>) -> (b: Backend)
    ensures
        final(state).cancel_flag == false,
        b == backend_for(*session_type),
{
    state.cancel_flag = false;
    select_backend(session_type)
}

/// Requests that the running loop, if any, stop at its next check.
///
/// Idempotent: it never errors, and the flag is true afterwards whether or
/// not a loop was running — stopping an idle controller is a no-op that
/// leaves the same state behind.
pub fn stop_stream(state: &mut StreamState)
    ensures
        final(state).cancel_flag == true,
{
    state.cancel_flag = true;
}

/// What one tick of the polling loop does next.
#[derive(Debug, Clone, Copy, PartialEq, Eq, Structural)]
pub enum TickCommand {
    /// Query the backend and emit the result.
    Query,
    /// Exit the loop without any further backend query.
    Exit,
}

/// The check at the head of every tick: with the cancel flag set, the loop
/// exits and performs no further backend query; otherwise it queries.
pub fn begin_tick(state: &StreamState) -> (c: TickCommand)
    ensures
        c == if state.cancel_flag {
            TickCommand::Exit
        } else {
            TickCommand::Query
        },
{
    if state.cancel_flag {
        TickCommand::Exit
    } else {
        TickCommand::Query
    }
}

/// Substitutes the sentinel for a failed compositor query, so a transient
/// failure never aborts the loop.
pub fn get_hypr_title(result: Result<ActiveWindow, AppError>) -> (w: ActiveWindow)
    ensures
        result matches Ok(win) ==> w == win,
        result is Err ==> is_sentinel(w),
{
    match result {
        Ok(win) => win,
        Err(_) => ActiveWindow::none(),
    }
}

/// Substitutes the sentinel for a failed X11 query, so a transient failure
/// never aborts the loop.
pub fn x_window_or_none(result: Result<ActiveWindow, XError>) -> (w: ActiveWindow)
    ensures
        result matches Ok(win) ==> w == win,
        result is Err ==> is_sentinel(w),
{
    match result {
        Ok(win) => win,
        Err(_) => ActiveWindow::none(),
    }
}

} // verus!
