[package]
name = "bw_scripting"
version = "0.1.0"
edition = "2021"
publish = false

[dependencies]
rhai = { version = "=1.27.0", features = ["sync", "debugging"] }
uuid = { version = "=1.29.0", features = ["v4"] }
serde = { version = "=1.0.229", features = ["derive"] }
serde_json = "=1.0.154"
toml = "=0.8.23"
thiserror = "=1.0.69"
parking_lot = "=0.12.5"
rand = "=0.8.8"
tracing = "=0.1.44"
chrono = "=0.4.45"
anyhow = "=1.0.104"
dashmap = "=6.2.1"
tokio = { version = "=1.54.1", features = ["sync"] }
