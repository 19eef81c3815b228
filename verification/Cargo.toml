[package]
name = "punch"
version = "0.1.0"
edition = "2021"
publish = false

[dependencies]
sha2 = "0.10"
chacha20poly1305 = "0.10"
x25519-dalek = "2"
rand = "0.8"
tokio = { version = "1", features = ["full"] }
serde = { version = "1", features = ["derive"] }
serde_json = "1"
anyhow = "1"
chrono = { version = "0.4", features = ["serde"] }
dirs = "5"
clap = { version = "4", features = ["derive"] }
uuid = { version = "1", features = ["v4"] }
tracing = "0.1"
tracing-subscriber = { version = "0.3", features = ["env-filter"] }
tokio-tungstenite = { version = "0.21", features = ["rustls-tls-webpki-roots"] }
futures-util = "0.3"
axum = { version = "0.7", features = ["ws"] }
tower-http = { version = "0.5", features = ["cors"] }

indicatif = "0.17"
crossterm = "0.27"
portable-pty = "0.8"
bytes = "1"
