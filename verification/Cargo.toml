[package]
name = "input_history"
version = "0.1.0"
edition = "2021"
publish = false

[dependencies]
unicode-width = "=0.2.2"
termion = "=1.5.6"
tui = { version = "=0.19.0", default-features = false, features = ["termion"] }
log = "=0.4.34"
log4rs = "=1.4.0"
