[package]
name = "px4-param-audit"
version = "0.1.0"
edition = "2021"
publish = false

[dependencies]
anyhow = "=1.0.104"
clap = { version = "=4.6.7", features = ["derive"] }
comfy-table = "=8.0.1"
crossterm = "=0.29.0"
mavlink = "=0.19.1"
ratatui = "=0.30.2"
serde_yaml = "=0.9.34"
serialport = { version = "=4.10.1", default-features = false }
