[package]
name = "pman_server"
version = "0.1.0"
edition = "2021"
publish = false

[dependencies]
chrono = "0.4"
rocket = "0.5"
serde = { version = "1", features = ["derive"] }
tokio = { version = "1", features = ["full"] }
tokio-cron-scheduler = "*"
toml = "0.8"
