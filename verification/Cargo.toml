[package]
name = "siege_tower_backend"
version = "0.1.0"
edition = "2021"
publish = false

[dependencies]
chrono = { version = "0.4", features = ["serde"] }
serde = { version = "1", features = ["derive"] }
serde_json = "1"
uuid = { version = "1", features = ["v4", "serde"] }
anyhow = "1"
tokio = { version = "1", features = ["full"] }
tokio-stream = { version = "0.1", features = ["sync"] }
axum = "0.7"
tower-http = { version = "0.5", features = ["cors", "trace", "compression-gzip"] }
reqwest = { version = "0.12", default-features = false }
rumqttc = { version = "0.24", default-features = false }
prometheus = { version = "0.13", default-features = false }
once_cell = "1"
parking_lot = "0.12"
nalgebra = "0.33"
rand = "0.8"
dotenvy = "0.15"
tracing = "0.1"
tracing-subscriber = { version = "0.3", features = ["env-filter"] }
