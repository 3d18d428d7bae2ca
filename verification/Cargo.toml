[package]
name = "portfu"
version = "0.1.0"
edition = "2021"
publish = false

[dependencies]
regex = "=1.13.1"
urlencoding = "=2.1.3"
tokio-tungstenite = { version = "=0.30.0", default-features = false, features = ["handshake"] }
http = "=1.5.0"
serde = { version = "=1.0.229", features = ["derive"] }
serde_json = "=1.0.154"
rustls-pemfile = "=2.2.0"
rustls-pki-types = "=1.15.1"
serde_yaml = "=0.9.34"
uuid = { version = "=1.29.0", features = ["v4"] }
syn = { version = "2", features = ["full"] }
