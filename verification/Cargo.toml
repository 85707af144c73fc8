[package]
name = "chunked_upload"
version = "0.1.0"
edition = "2021"
publish = false

[dependencies]
anyhow = "1"
biliup = "=0.1.11"
futures = "0.3"
reqwest = "0.11"
serde_json = "1"
serde_yaml = "0.9"
tokio = { version = "1", features = ["sync", "rt", "macros"] }
tracing = "0.1"
tracing-appender = "0.2"
tracing-subscriber = "0.3"
