[package]
name = "appendlog"
version = "0.1.0"
edition = "2021"
publish = false

[dependencies]
parking_lot = "0.12"
async-nats = "*"
futures = "0.3"
serde = { version = "1", features = ["derive"] }
serde_json = "1"
tracing = "0.1"
opentelemetry = "*"
tracing-opentelemetry = "*"
