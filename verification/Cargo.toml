[package]
name = "rdapify"
version = "0.2.0"
edition = "2021"
publish = false

[dependencies]
url = "2"
idna = "1"
ipnetwork = "0.20"
dashmap = "6"
chrono = "0.4"
serde = { version = "1", features = ["derive"] }
serde_json = "1"
reqwest = { version = "0.12", default-features = false, features = ["json", "rustls-tls", "gzip"] }
tokio = { version = "1", features = ["full"] }
tokio-stream = "0.1"
thiserror = "1"
clap = { version = "4", features = ["derive"] }
