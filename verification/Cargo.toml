[package]
name = "averagedb_api"
version = "0.1.0"
edition = "2021"
publish = false

[dependencies]
axum = "0.7"
lru = "0.12"
rand = "0.8"
serde = { version = "1", features = ["derive"] }
serde_derive = "1"
tokio = { version = "1", features = ["full"] }
tower = "0.4"
tracing-subscriber = "0.3"
