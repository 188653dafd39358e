[package]
name = "leptos_ws_pro"
version = "0.10.1"
edition = "2021"
publish = false

[dependencies]
serde = { version = "1", features = ["derive"] }
serde_json = "1"
rand = "0.8"
uuid = { version = "1", features = ["v4"] }
tokio = { version = "1", features = ["sync", "rt", "time", "macros"] }
thiserror = "1"
flate2 = "1"
zstd = "0.13"
num-bigint = { version = "0.4", features = ["serde"] }
json-patch = "*"
futures = "0.3"
tracing = "0.1"
async-trait = "0.1"
