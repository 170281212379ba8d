[package]
name = "komga_herald"
version = "0.1.0"
edition = "2021"
publish = false

[dependencies]
anyhow = "*"
base64 = "*"
chrono = "*"
config = "*"
env_logger = "*"
handlebars = "*"
reqwest = { version = "*", features = ["json"] }
serde = { version = "*", features = ["derive"] }
serde_json = "*"
serenity = "*"
tokio = { version = "*", features = ["full"] }
tokio-cron-scheduler = "*"
