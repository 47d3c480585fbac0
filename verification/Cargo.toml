[package]
name = "rmcp_actix_web"
version = "0.1.0"
edition = "2021"
publish = false

[dependencies]
actix-rt = "*"
actix-web = "*"
async-stream = "=0.3.6"
futures = "=0.3.34"
rmcp = "*"
serde = { version = "=1.0.229", features = ["derive"] }
serde_json = "=1.0.151"
tokio = { version = "=1.53.2", features = ["sync", "rt", "macros", "time"] }
tokio-stream = "=0.1.19"
tokio-util = "=0.7.19"
