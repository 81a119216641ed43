[package]
name = "lvsp"
version = "0.1.0"
edition = "2021"
publish = false

[dependencies]
hex = "0.4"
hmac = "0.12"
sha2 = "0.10"
rand = "0.8"
tokio = { version = "1", features = ["full"] }
tokio-tungstenite = "0.21"
futures-util = "0.3"
dotenv = "0.15"
log = "0.4"
pretty_env_logger = "0.5"

[dev-dependencies]
serde_json = "1"
