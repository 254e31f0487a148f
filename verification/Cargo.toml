[package]
name = "trui"
version = "0.1.0"
edition = "2021"
publish = false

[dependencies]
anyhow = "*"
crossterm = "*"
ratatui = "*"
tokio = { version = "*", features = ["rt-multi-thread", "sync", "time"] }
tracing = "*"
tracing-appender = "*"
tracing-subscriber = "*"
