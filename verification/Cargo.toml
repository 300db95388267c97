[package]
name = "worker_pool"
version = "0.1.0"
edition = "2021"
publish = false

[dependencies]
uuid = { version = "0.8", features = ["v4"] }
serde = { version = "1", features = ["derive"] }
actix-web = "4"
actix-cors = "0.6"
async-std = "1"
env_logger = "*"
log = "0.4"
