[package]
name = "lan_chat"
version = "0.1.0"
edition = "2021"
publish = false

[dependencies]
anyhow = "1"
chrono = { version = "0.4", features = ["serde"] }
dirs = "*"
env_logger = "*"
futures-util = "0.3"
hostname = "*"
libmdns = "*"
log = "0.4"
mdns = "3"
serde = { version = "1", features = ["derive"] }
serde_json = "1"
tokio = { version = "1", features = ["full"] }
tokio-tungstenite = "*"
uuid = { version = "1", features = ["v4", "serde"] }
whoami = "1"
