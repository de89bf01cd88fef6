[package]
name = "domo_wot_bridge"
version = "0.1.0"
edition = "2021"
publish = false

[dependencies]
aead = "=0.5.2"
aes = "=0.8.4"
axum = { version = "0.6", features = ["ws", "headers"] }
axum-auth = "0.4"
axum-server = { version = "0.5", features = ["tls-rustls"] }
base64 = "=0.21.7"
ccm = "=0.5.0"
clap = { version = "4", features = ["derive"] }
env_logger = "0.10"
futures = "0.3"
futures-util = "0.3"
hex = "=0.4.3"
log = "0.4"
mdns = "3"
native-tls = "0.2"
serde = { version = "1", features = ["derive"] }
serde_json = "=1.0.154"
tokio = { version = "1", features = ["full"] }
tokio-tungstenite = { version = "0.20", features = ["native-tls"] }
tower-http = { version = "0.4", features = ["cors"] }
url = "2"
