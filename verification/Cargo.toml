[package]
name = "opentelemetry_datadog"
version = "0.1.0"
edition = "2021"
publish = false

[dependencies]
opentelemetry = "=0.4.0"
reqwest = { version = "=0.10.10", default-features = false }
rmp-serde = "1.3"
serde = { version = "=1.0.229", features = ["derive"] }
tokio = { version = "=0.2.25", features = ["rt-core"] }
tracing = "=0.1.44"
typed-builder = "=0.5.1"
