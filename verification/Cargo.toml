[package]
name = "thrum"
version = "0.1.0"
edition = "2021"
publish = false

[dependencies]
crossterm = "*"
ratatui = "*"
serde = { version = "1", features = ["derive"] }
sysinfo = "*"
toml = "*"
