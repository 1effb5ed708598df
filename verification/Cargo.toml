[package]
name = "crewlink"
version = "0.1.0"
edition = "2021"
publish = false

[dependencies]
async-stream = "0.3"
axum = "0.8"
base64 = "0.22"
dashmap = "6"
futures-util = "0.3"
hmac = "0.12"
serde = { version = "1", features = ["derive"] }
serde_json = { version = "1", features = ["raw_value"] }
sha1 = "0.10"
socketioxide = { version = "0.18", features = ["state"] }
tokio = { version = "1", features = ["macros", "rt-multi-thread", "net", "signal", "sync", "time"] }
toml = "0.9"
tower-http = { version = "0.6", features = ["catch-panic", "cors", "limit", "timeout", "trace"] }
tracing = "0.1"
tracing-subscriber = { version = "0.3", features = ["env-filter"] }
