[package]
name = "biliticket"
version = "0.1.0"
edition = "2021"
publish = false

[dependencies]
base64 = "0.21"
rand = "0.8"
cookie = "0.17"
uuid = { version = "1", features = ["v4"] }
aes = "0.7"
block-modes = "0.8"
serde = { version = "1", features = ["derive"] }
serde_json = "1"
reqwest = { version = "0.12", default-features = false, features = ["cookies", "json", "rustls-tls"] }
tokio = { version = "1", features = ["rt-multi-thread", "macros", "time", "sync"] }
chrono = "0.4"
machine-uid = "0.5"
single-instance = "0.3"
log = "0.4"
