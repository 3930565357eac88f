[package]
name = "ghost_commands"
version = "0.1.0"
edition = "2021"
publish = false

[dependencies]
serde_json = "1"
rusqlite = { version = "*", features = ["bundled"] }
crossterm = { version = "*", features = ["event-stream"] }
ratatui = "*"
futures = "0.3"
tokio = { version = "1", features = ["macros", "rt", "time"] }
