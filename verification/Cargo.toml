[package]
name = "notema_tui"
version = "0.1.0"
edition = "2021"
publish = false

[dependencies]
unicode-width = "=0.2.0"
chrono = { version = "=0.4.45", default-features = false, features = ["clock", "std"] }
ratatui = { version = "=0.29.0", default-features = false, features = ["crossterm"] }
crossterm = "0.28"
zeroize = "1"
