[package]
name = "speed_test"
version = "0.1.0"
edition = "2021"
publish = false

[dependencies]
url = "=2.5.8"
anyhow = "=1.0.104"
futures = "=0.3.34"
futures-util = { version = "=0.3.34", features = ["sink"] }
rand = "=0.8.8"
reqwest = { version = "=0.12.28", features = ["json", "stream"] }
serde = { version = "=1.0.229", features = ["derive"] }
serde_json = "=1.0.154"
tokio = { version = "=1.54.1", features = ["full"] }
tokio-tungstenite = { version = "=0.30.0", features = ["native-tls"] }
tungstenite = "=0.30.0"
