[package]
name = "modbus"
version = "0.1.0"
edition = "2021"
publish = false

[dependencies]
serde = { version = "1", features = ["derive"] }
serde_json = "1"
serde_yaml = "*"
toml = "*"
tokio = { version = "1", features = ["io-util", "time", "net", "rt", "macros"] }
serialport = { version = "4", default-features = false }
