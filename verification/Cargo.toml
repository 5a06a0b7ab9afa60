[package]
name = "modbus"
version = "0.1.0"
edition = "2021"
publish = false

[dependencies]
tokio = { version = "1", features = ["full"] }
tokio-serial = "5"
log = "0.4"
env_logger = "0.11"
