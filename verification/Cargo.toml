[package]
name = "user_store"
version = "0.1.0"
edition = "2021"
publish = false

[dependencies]
uuid = { version = "1", features = ["v4"] }
serde = { version = "1", features = ["derive"] }
mongodb = "2"
actix-web = "4"
dotenv = "0.15"
env_logger = "0.11"
tokio-stream = "0.1"
