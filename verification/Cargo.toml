[package]
name = "aqua"
version = "0.1.0"
edition = "2021"
publish = false

[dependencies]
bytes = "1"
dashmap = "6"
thiserror = "1"
tokio = { version = "1", features = ["full"] }
tokio-util = { version = "0.7", features = ["io"] }
tower = { version = "0.5", features = ["util"] }
tower-service = "0.3"
tracing = "0.1"
uuid = { version = "1", features = ["v4"] }
once_cell = "1"
futures-util = "0.3"
pin-project = "1"
anyhow = "1"
log = "0.4"
