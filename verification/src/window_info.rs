//! The two window-info backends: a direct X11 property decoder and a
//! compositor IPC reply parser.

pub mod hyprland_window_info;
pub mod x_window_info;
