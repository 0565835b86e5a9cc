//! Shared result and error types of the window-info layer.

use vstd::prelude::*;

verus! {

/// Errors of the compositor IPC backend and the stream glue around it.
#[derive(Debug, Clone, PartialEq, Eq)]
pub enum AppError {
    /// A required environment variable is absent; the message names it.
    EnvVarNotSet(String),
    /// An I/O failure outside the verified core, carried as its message.
    Io(String),
    /// The IPC reply could not be decoded or did not match the expected layout.
    Parse(String),
}

/// The four fields decoded from one compositor IPC reply.
#[derive(Debug, Clone, PartialEq, Eq)]
pub struct Window {
    pub class: String,
    pub title: String,
    pub initial_class: String,
    pub initial_title: String,
}

/// The shared cancel signal of one streaming session.
#[derive(Debug, Clone, Copy, PartialEq, Eq, Structural)]
pub struct StreamState {
    pub cancel_flag: bool,
}

/// Errors of the X11 backend.
#[derive(Debug, Clone, PartialEq, Eq)]
pub enum XError {
    /// Could not open the display connection.
    ConnectError(String),
    /// A request could not be sent on the connection.
    ConnError(String),
    /// A round trip failed while waiting for the reply.
    ReplyError(String),
    /// The active-window property was 32-bit with one entry but held no value.
    NoActiveWindow,
    /// An intern-atom round trip failed.
    AtomError(String),
    /// A property reply had the wrong format for its type.
    InvalidFormat(String),
    /// Property bytes were not valid UTF-8.
    InvalidUtf8(String),
    /// A WM_CLASS property without the separating null byte.
    MalformedWMClass,
}

/// The class and title of the currently focused window.
#[derive(Debug, Clone)]
pub struct ActiveWindow {
    pub class: String,
    pub title: String,
}

/// Holds exactly when `w` is the sentinel that stands in for a failed query.
pub open spec fn is_sentinel(w: ActiveWindow) -> bool {
    w.class@ == "none"@ && w.title@ == "none"@
}

impl ActiveWindow {
    /// The sentinel value emitted when a tick's query could not be resolved.
    pub fn none() -> (w: ActiveWindow)
        ensures
            is_sentinel(w),
    {
        ActiveWindow { title: "none".to_owned(), class: "none".to_owned() }
    }
}

impl PartialEq for ActiveWindow {
    /// Equality is structural: class and title both match.
    fn eq(&self, other: &Self) -> (r: bool) {
        self.class == other.class && self.title == other.title
    }
}

impl vstd::std_specs::cmp::PartialEqSpecImpl for ActiveWindow {
    open spec fn obeys_eq_spec() -> bool {
        true
    }

    open spec fn eq_spec(&self, other: &Self) -> bool {
        self.class@ == other.class@ && self.title@ == other.title@
    }
}

} // verus!
