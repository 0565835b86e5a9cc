[package]
name = "active_window_stream"
version = "0.1.0"
edition = "2021"
publish = false

[dependencies]
nix = { version = "*", features = ["user"] }
tokio = { version = "*", features = ["net", "io-util", "time", "sync", "rt-multi-thread", "macros"] }
x11rb = "*"
