//! Active-window streaming: decoding of X11 window properties, parsing of a
//! compositor's IPC reply text, backend selection by session type, and the
//! decisions of a cancellable polling loop.
//!
//! Everything here works on plain values. The host shell performs the
//! protocol round trips and the loop's scheduling, and hands the raw reply
//! data in.

pub mod model;
pub mod stream;
pub mod text;
pub mod window_info;
