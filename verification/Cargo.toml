[package]
name = "cloud_rider_gateway"
version = "0.1.0"
edition = "2021"
publish = false

[dependencies]
chrono = "*"
axum = { version = "*", features = ["ws"] }
tokio = { version = "*", features = ["full"] }
futures-util = "*"
serde = { version = "*", features = ["derive"] }
serde_json = "*"
