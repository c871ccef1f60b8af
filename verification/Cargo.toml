[package]
name = "tieba-image-downloader"
version = "0.1.0"
edition = "2021"
publish = false

[dependencies]
blake3 = "=1.8.7"
chrono = { version = "=0.4.45", features = ["serde"] }
clap = { version = "=4.6.7", features = ["derive"] }
dialoguer = "=0.12.0"
futures-util = "=0.3.34"
indicatif = "=0.18.6"
reqwest = { version = "=0.12.28", default-features = false, features = ["rustls-tls", "stream"] }
scraper = "=0.29.0"
security-framework = "*"
serde = { version = "=1.0.229", features = ["derive"] }
serde_json = "=1.0.154"
thiserror = "=2.0.21"
tokio = { version = "=1.54.1", features = ["full"] }
tokio-tungstenite = "=0.30.0"
tokio-util = "=0.7.20"
url = "=2.5.8"
