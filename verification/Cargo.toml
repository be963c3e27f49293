[package]
name = "open_forge"
version = "0.1.0"
edition = "2021"
publish = false

[dependencies]
anyhow = "=1.0.104"
async-trait = "=0.1.92"
axum = { version = "=0.7.9", features = ["ws"] }
chrono = { version = "=0.4.45", features = ["serde"] }
futures = "=0.3.34"
jsonwebtoken = "=9.3.1"
parking_lot = "=0.12.5"
serde = { version = "=1.0.229", features = ["derive"] }
serde_json = { version = "=1.0.154", features = ["preserve_order"] }
serde_yaml = "=0.9.34"
thiserror = "=1.0.69"
tokio = { version = "=1.54.1", features = ["full"] }
tower-http = { version = "=0.5.2", features = ["cors"] }
tracing = "=0.1.44"
uuid = { version = "=1.29.0", features = ["v4"] }
