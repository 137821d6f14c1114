[package]
name = "openhuman"
version = "0.1.0"
edition = "2021"
publish = false

[dependencies]
anyhow = "=1.0.104"
async-trait = "=0.1.92"
base64 = "=0.22.1"
futures = "=0.3.34"
log = "=0.4.35"
rusqlite = { version = "=0.32.1", features = ["bundled"] }
schemars = "=0.8.22"
serde = { version = "=1.0.229", features = ["derive"] }
serde_json = "=1.0.154"
tokio = { version = "=1.54.1", features = ["rt", "sync"] }
tracing = "=0.1.44"
