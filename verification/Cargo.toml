[package]
name = "north_pole"
version = "0.1.0"
edition = "2021"
publish = false

[dependencies]
axum = "0.6"
base64 = "0.21"
serde = { version = "1", features = ["derive"] }
serde_json = "1"
shuttle-axum = "0.35"
shuttle-runtime = "0.35"
tokio = "1"
tracing = "0.1"
