[package]
name = "rust_a_rag_us"
version = "0.1.0"
edition = "2021"
publish = false

[dependencies]
anyhow = "1"
axum = "=0.7.9"
chrono = "=0.4.45"
clap = { version = "=4.6.7", features = ["derive"] }
dotenv = "0.15"
env_logger = "0.10"
log = "0.4"
ollama-rs = { version = "=0.1.9", features = ["stream"] }
qdrant-client = "=1.20.0"
reqwest = "=0.11.27"
scraper = { version = "=0.18.1", features = ["deterministic"] }
serde = { version = "1", features = ["derive"] }
serde_json = "1"
sha1 = "=0.10.7"
text-splitter = "=0.33.0"
tiktoken-rs = "=0.5.9"
tokio = { version = "1", features = ["full"] }
tokio-stream = "0.1"
utoipa = "=4.2.3"
utoipa-swagger-ui = { version = "=6.0.0", features = ["axum"] }
uuid = { version = "=1.29.0", features = ["v5"] }
