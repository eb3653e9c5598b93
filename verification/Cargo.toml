[package]
name = "lastrun"
version = "0.1.0"
edition = "2021"
publish = false

[dependencies]
chrono = "0.4.41"
clap = { version = "4.5.41", features = ["derive"] }
clap_complete = "4.5"
crossterm = "0.28"
dirs = "6.0.0"
prettytable-rs = "0.10.0"
ratatui = "0.29"
rusqlite = { version = "0.37.0", features = ["bundled"] }
serde_json = "1.0"
thiserror = "2.0.12"
