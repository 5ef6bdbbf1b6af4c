[package]
name = "sglang-openai"
version = "0.1.0"
edition = "2021"
publish = false

[dependencies]
async-stream = "=0.3.6"
axum = "=0.8.9"
dynamo-parsers = "=7.1.1"
dynamo-protocols = "=5.4.3"
futures = "=0.3.34"
serde = { version = "=1.0.229", features = ["derive"] }
serde_json = "=1.0.154"
thiserror = "=2.0.21"
tokio = { version = "=1.54.1", features = ["sync", "rt", "macros"] }
uuid = { version = "=1.29.0", features = ["v4"] }
