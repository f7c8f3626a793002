[package]
name = "redis_state"
version = "0.1.0"
edition = "2021"
publish = false

[dependencies]
anyhow = "1"
async-trait = "0.1"
iii-helpers = "=0.25.0"
redis = { version = "=1.8.1", features = ["tokio-comp", "connection-manager", "script"] }
schemars = "0.8"
serde = { version = "1", features = ["derive"] }
serde_json = "=1.0.154"
tokio = { version = "1", features = ["sync", "time"] }
tracing = "0.1"
