[package]
name = "self_meter_http"
version = "0.4.1"
edition = "2021"
publish = false

[dependencies]
futures = "0.1"
log = "0.4"
self-meter = "*"
serde = "1"
serde_json = "1"
tk-http = { version = "*", default-features = false }
tokio-core = "0.1"
