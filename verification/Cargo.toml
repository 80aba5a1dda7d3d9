[package]
name = "eoproxy"
version = "0.1.0"
edition = "2021"
publish = false

[dependencies]
eo = "*"
tokio = { version = "1", features = ["full"] }
tokio-tungstenite = "*"
futures-util = "0.3"
serde = { version = "1", features = ["derive"] }
serde_json = "1"
chrono = "0.4"
config = "*"
log = "0.4"
pretty_env_logger = "*"
num-traits = "0.2"
