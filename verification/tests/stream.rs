use active_window_stream::model::{ActiveWindow, AppError, StreamState, XError};
use active_window_stream::stream::{
    begin_tick, get_hypr_title, select_backend, stop_stream, stream_title, x_window_or_none,
    Backend, TickCommand,
};

#[test]
fn backend_selection_by_session_type() {
    assert_eq!(select_backend(&Some("x11".to_string())), Backend::X11);
    assert_eq!(select_backend(&Some("wayland".to_string())), Backend::Hyprland);
    assert_eq!(select_backend(&Some("tty".to_string())), Backend::Unsupported);
    assert_eq!(select_backend(&Some("".to_string())), Backend::Unsupported);
    assert_eq!(select_backend(&None), Backend::Unsupported);
}

#[test]
fn unrecognized_session_is_a_silent_no_op() {
    // Unset or unrecognized session type: no backend, no error, and the
    // start itself still succeeds (it simply selects nothing to poll).
    let mut state = StreamState::new();
    let backend = stream_title(&mut state, &None);
    assert_eq!(backend, Backend::Unsupported);
    assert!(!state.cancel_flag);
    let backend = stream_title(&mut state, &Some("mir".to_string()));
    assert_eq!(backend, Backend::Unsupported);
}

#[test]
fn start_resets_the_cancel_flag() {
    let mut state = StreamState { cancel_flag: true };
    let backend = stream_title(&mut state, &Some("x11".to_string()));
    assert_eq!(backend, Backend::X11);
    assert!(!state.cancel_flag);
}

#[test]
fn stop_is_idempotent() {
    // Stopping with no loop running does not error and leaves the flag
    // true; stopping again changes nothing.
    let mut state = StreamState::new();
    assert!(!state.cancel_flag);
    stop_stream(&mut state);
    assert!(state.cancel_flag);
    stop_stream(&mut state);
    assert!(state.cancel_flag);
}

#[test]
fn cancelled_tick_performs_no_query() {
    let state = StreamState { cancel_flag: true };
    assert_eq!(begin_tick(&state), TickCommand::Exit);
    let state = StreamState { cancel_flag: false };
    assert_eq!(begin_tick(&state), TickCommand::Query);
}

#[test]
fn failed_queries_degrade_to_the_sentinel() {
    let sentinel = ActiveWindow::none();
    assert_eq!(sentinel.class, "none");
    assert_eq!(sentinel.title, "none");
    let w = x_window_or_none(Err(XError::NoActiveWindow));
    assert_eq!(w, sentinel);
    let w = get_hypr_title(Err(AppError::Parse("nope".to_string())));
    assert_eq!(w, sentinel);
    // After the substitution the loop's state is untouched: the next tick
    // still queries.
    let state = StreamState { cancel_flag: false };
    assert_eq!(begin_tick(&state), TickCommand::Query);
}

#[test]
fn successful_queries_pass_through() {
    let w = ActiveWindow {
        class: "XTerm".to_string(),
        title: "bash".to_string(),
    };
    assert_eq!(x_window_or_none(Ok(w.clone())), w);
    assert_eq!(get_hypr_title(Ok(w.clone())), w);
}

#[test]
fn active_window_equality_is_structural() {
    let a = ActiveWindow {
        class: "a".to_string(),
        title: "t".to_string(),
    };
    let b = ActiveWindow {
        class: "a".to_string(),
        title: "t".to_string(),
    };
    let c = ActiveWindow {
        class: "b".to_string(),
        title: "t".to_string(),
    };
    assert_eq!(a, b);
    assert_ne!(a, c);
}
