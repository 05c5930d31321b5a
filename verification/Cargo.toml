[package]
name = "donglora-bridge"
version = "1.0.1"
edition = "2021"
publish = false

[dependencies]
anyhow = "1"
blake3 = "1"
bytes = "1"
clap = { version = "4", features = ["derive"] }
crossterm = "0.28"
dirs = "*"
donglora-client = "1.0.0-alpha.1"
hex = "0.4"
jiff = "0.2"
ratatui = "0.29"
serde = { version = "1", features = ["derive"] }
tokio = { version = "1", features = ["rt-multi-thread", "macros", "sync", "time", "signal"] }
tokio-util = "0.7"
toml = "*"
tracing = "0.1"
tracing-appender = "0.2"
tracing-subscriber = { version = "0.3", features = ["env-filter"] }
