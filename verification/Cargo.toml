[package]
name = "roof_control_hub"
version = "0.1.0"
edition = "2021"
publish = false

[dependencies]
anyhow = "1"
cpu-time = "1"
crossbeam-channel = "0.5"
env_logger = "*"
log = "0.4"
opencv = "*"
prometheus = { version = "*", default-features = false }
serde = { version = "1", features = ["derive"] }
serde_json = "1"
serialport = { version = "*", default-features = false }
tiny_http = "0.12"
