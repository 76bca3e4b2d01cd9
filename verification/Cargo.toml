[package]
name = "deepboot"
version = "0.1.0"
edition = "2021"
publish = false

[dependencies]
anyhow = "*"
chrono = "*"
crossterm = "*"
csv = "*"
dirs = "*"
env_logger = "*"
log = "*"
ratatui = "*"
serde = { version = "*", features = ["derive"] }
serde_json = "*"
