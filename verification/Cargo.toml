[package]
name = "xray2surge"
version = "0.1.0"
edition = "2021"
publish = false

[dependencies]
url = "2"
urlencoding = "2"
base64 = "0.22"
uuid = { version = "1", features = ["v4"] }
anyhow = "1"
axum = "0.7"
tokio = { version = "1", features = ["full"] }
reqwest = { version = "0.12", default-features = false, features = ["rustls-tls"] }
serde = { version = "1", features = ["derive"] }
serde_json = "1"
dotenvy = "0.15"
