[package]
name = "gifsy"
version = "0.3.0"
edition = "2021"
publish = false

[dependencies]
chrono = "0.4"
clap = "3"
notify-rust = "4"
tracing = "0.1"
tracing-journald = "0.3"
tracing-subscriber = "0.3"
