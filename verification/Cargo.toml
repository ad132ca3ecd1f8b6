[package]
name = "quota_control"
version = "0.1.0"
edition = "2021"
publish = false

[dependencies]
ansi_term = "0.12"
csv = "1"
regex = "1"
serde = { version = "1", features = ["derive"] }
termion = "1.5"
tui = "0.12"
users = "0.11"
