[package]
name = "wafer_core"
version = "0.1.0"
edition = "2021"
publish = false

[dependencies]
chrono = "0.4"
futures = "0.3"
parking_lot = "0.12"
serde = { version = "1", features = ["derive"] }
serde_json = "1"
thiserror = "1"
tokio-util = "0.7"
tracing = "0.1"
url = "2"
uuid = { version = "1", features = ["v7"] }
