[package]
name = "rag-pdf-dataset"
version = "0.2.0"
edition = "2021"
publish = false

[dependencies]
regex = "=1.13.1"
unicode-normalization = "=0.1.26"
uuid = { version = "=1.29.1", features = ["v4"] }
chrono = "=0.4.45"
serde = { version = "=1.0.229", features = ["derive"] }
serde_json = "=1.0.154"
toml = "=0.8.23"
clap = { version = "=4.6.7", features = ["derive"] }
anyhow = "=1.0.104"
thiserror = "=1.0.69"
tokio = { version = "=1.54.1", features = ["macros", "rt-multi-thread", "time"] }
reqwest = { version = "=0.12.28", default-features = false, features = ["json", "rustls-tls"] }
log = "=0.4.35"
env_logger = "=0.11.11"
dotenv = "=0.15.0"
