[package]
name = "inspector_tui"
version = "0.1.0"
edition = "2021"
publish = false

[dependencies]
serde_json = "*"
fuzzy-matcher = "*"
tokio = { version = "*", features = ["io-util", "macros", "net", "process", "rt", "sync", "time"] }
tokio-tungstenite = "*"
futures = "*"
crossterm = "*"
ratatui = "*"
notify = "*"
ignore = "*"
clap = { version = "*", features = ["derive"] }
anyhow = "*"
log = "*"
unicode-width = "*"
