[package]
name = "rust_tui"
version = "0.1.0"
edition = "2021"
publish = false

[dependencies]
chrono = "0.4"
dirs = "6"
ratatui = "0.29"
crossterm = "0.28"
color-eyre = "0.6"
signal-hook = "0.3"
serde = { version = "1", features = ["derive"] }
serde_json = "1"
