[package]
name = "metrique"
version = "0.1.0"
edition = "2021"
publish = false

[dependencies]
Inflector = "=0.11.4"
tokio = { version = "=1.54.1", features = ["time", "rt", "sync"] }
sysinfo = "=0.40.1"
aws-sdk-cloudwatchlogs = { version = "=1.162.0", default-features = false }
metrics = "=0.24.6"
tokio-metrics = "=0.5.2"
opentelemetry = { version = "=0.33.1", features = ["logs"] }
opentelemetry_sdk = { version = "=0.33.1", features = ["logs"] }
ustr = "1"
