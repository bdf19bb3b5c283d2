[package]
name = "foxglove"
version = "0.1.0"
edition = "2021"
publish = false

[dependencies]
bimap = "0.6"
flume = "0.11"
futures-util = "0.3"
mcap = { version = "*", default-features = false }
parking_lot = "0.12"
prost = "0.13"
prost-types = "0.13"
serde_json = "1"
smallvec = "1"
tokio = { version = "1", features = ["rt-multi-thread", "net", "sync", "macros", "time"] }
tokio-tungstenite = "*"
tokio-util = "0.7"
tracing = "0.1"
env_logger = "0.11"
