[package]
name = "tuipe"
version = "0.1.0"
edition = "2021"
publish = false

[dependencies]
chrono = "*"
color-eyre = "*"
crossterm = "*"
log = "*"
rand = "*"
ratatui = "*"
serde = { version = "1", features = ["derive"] }
serde_json = "*"
simplelog = "*"
sqlite = "*"
