[package]
name = "zenoh_flow"
version = "0.1.0"
edition = "2021"
publish = false

[dependencies]
flume = "*"
uhlc = "*"
uuid = { version = "*", features = ["v4"] }
serde = { version = "1", features = ["derive"] }
serde_json = "*"
serde_yaml = "*"
libloading = "*"
