[package]
name = "lcu_autopick"
version = "0.1.0"
edition = "2021"
publish = false

[dependencies]
base64 = "0.21"
rand = "0.8"
serde = { version = "1", features = ["derive"] }
serde_json = "1"
reqwest = { version = "0.11", features = ["blocking", "json"] }
tungstenite = { version = "0.20", features = ["native-tls"] }
native-tls = "0.2"
log = "0.4"
lazy_static = "1"
