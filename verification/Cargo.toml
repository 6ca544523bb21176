[package]
name = "cc_sessions_viewer"
version = "0.1.0"
edition = "2021"
publish = false

[dependencies]
anyhow = "*"
chrono = "*"
cli-clipboard = "*"
crossterm = "*"
dirs = "*"
fuzzy-matcher = "*"
ratatui = "*"
rusqlite = { version = "*", features = ["bundled"] }
serde_json = "*"
