[package]
name = "guildscan"
version = "0.1.0"
edition = "2021"
publish = false

[dependencies]
axum = "*"
chrono = "*"
env_logger = "*"
fastrand = "*"
log = "*"
serde = { version = "*", features = ["derive"] }
serde_json = "*"
sf-api = "*"
tokio = { version = "*", features = ["full"] }
tower-http = { version = "*", features = ["fs"] }
