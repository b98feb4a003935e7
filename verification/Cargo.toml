[package]
name = "location_store"
version = "0.1.0"
edition = "2021"
publish = false

[dependencies]
axum = "0.7"
bincode = "1.3"
serde = { version = "1", features = ["derive"] }
sled = "0.34"
tokio = { version = "1", features = ["full"] }
tower-http = { version = "0.5", features = ["fs"] }
uuid = { version = "1", features = ["v4"] }
