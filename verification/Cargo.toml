[package]
name = "fleetwatch"
version = "0.1.0"
edition = "2021"
publish = false

[dependencies]
md5 = "*"
ssh2-config = "*"
ssh2 = "*"
tokio = { version = "1", features = ["full"] }
ratatui = "*"
crossterm = { version = "*", features = ["event-stream"] }
color-eyre = "*"
eyre = "*"
dirs = "*"
futures = "*"
tracing = "*"
parking_lot = "*"
