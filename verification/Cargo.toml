[package]
name = "mde"
version = "0.1.0"
edition = "2021"
publish = false

[dependencies]
serde = { version = "1", features = ["derive"] }
serde_json = "1"
zbus = "4"
rusqlite = { version = "0.31", features = ["bundled"] }
ratatui = "0.28"
crossterm = "0.28"
