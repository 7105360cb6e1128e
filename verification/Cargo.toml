[package]
name = "vdub"
version = "0.1.0"
edition = "2021"
publish = false

[dependencies]
regex = "1"
rand = "0.8"
chrono = "0.4"
uuid = { version = "1", features = ["v4"] }
hmac = "0.12"
sha1 = "0.10"
base64 = "0.22"
anyhow = "1"
tokio = { version = "1", features = ["full"] }
axum = { version = "0.7", features = ["multipart"] }
serde = { version = "1", features = ["derive"] }
serde_json = "1"
toml = "0.8"
reqwest = { version = "0.12", default-features = false, features = ["json", "stream", "rustls-tls"] }
clap = { version = "4", features = ["derive"] }
tracing = "0.1"
tracing-subscriber = { version = "0.3", features = ["env-filter"] }
tower-http = { version = "0.5", features = ["cors"] }
futures-util = "0.3"
tokio-tungstenite = "0.26"
async-trait = "0.1"
