[package]
name = "stock_monitor"
version = "0.1.0"
edition = "2021"
publish = false

[dependencies]
anyhow = "*"
chrono = "*"
clap = "*"
colored = "*"
env_logger = "*"
futures-util = "*"
log = "*"
serde = "*"
serde_json = "*"
tokio = { version = "*", features = ["full"] }
tokio-tungstenite = "*"
url = "*"
