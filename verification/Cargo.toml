[package]
name = "boxcar"
version = "0.1.0"
edition = "2021"
publish = false

[dependencies]
anyhow = "1"
async-trait = "0.1"
bincode = "=1.3.3"
deadqueue = "=0.2.5"
etcd-client = "0.8"
futures-util = "0.3"
rand = "=0.8.8"
serde = { version = "1", features = ["derive"] }
serde_json = "1"
tokio = { version = "1", features = ["full"] }
tokio-tungstenite = "0.20"
tracing = "0.1"
uuid = { version = "=1.29.0", features = ["v4"] }
