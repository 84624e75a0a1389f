[package]
name = "ble_session"
version = "0.1.0"
edition = "2021"
publish = false

[dependencies]
anyhow = "1"
async-trait = "0.1"
dashmap = "5"
futures = "0.3"
log = "0.4"
tokio = { version = "1", features = ["rt", "sync", "macros"] }
tokio-stream = { version = "0.1", features = ["sync"] }
uuid = "1"
