[package]
name = "elara"
version = "0.2.0"
edition = "2021"
publish = false

[dependencies]
rand = "0.8"
humantime = "2"
parking_lot = "0.12"
sysinfo = "0.30"
serde = { version = "1", features = ["derive"] }
thiserror = "1"
tokio = { version = "1", features = ["full"] }
axum = "0.7"
tracing = "0.1"
tracing-subscriber = { version = "0.3", features = ["env-filter", "json"] }
opentelemetry = "0.21"
opentelemetry_sdk = { version = "0.21", features = ["rt-tokio"] }
opentelemetry-jaeger = { version = "0.20", features = ["rt-tokio"] }
opentelemetry-zipkin = "0.19"
opentelemetry-otlp = "0.14"
tracing-opentelemetry = "0.22"
