[package]
name = "auto_discovery"
version = "0.1.0"
edition = "2021"
publish = false

[dependencies]
anyhow = "1"
console = "*"
crossterm = "*"
hostname = "*"
mdns-sd = "*"
rand = "0.9"
ratatui = "*"
serde = { version = "1", features = ["derive"] }
serde_yaml = "*"
