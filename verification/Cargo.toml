[package]
name = "kronforce"
version = "0.1.0"
edition = "2021"
publish = false

[dependencies]
axum = "=0.8.9"
base64 = "=0.22.1"
chrono = "=0.4.45"
regex = "=1.13.1"
reqwest = { version = "=0.13.5", default-features = false }
rhai = "*"
rusqlite = { version = "=0.41.1", features = ["bundled"] }
serde = { version = "=1.0.229", features = ["derive"] }
serde_json = "=1.0.154"
tokio = { version = "=1.54.1", features = ["rt-multi-thread", "macros", "net", "time", "process", "sync", "io-util"] }
url = "=2.5.8"
uuid = { version = "=1.29.0", features = ["v4"] }
