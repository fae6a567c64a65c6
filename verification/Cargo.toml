[package]
name = "opentelemetry_tracing_utils"
version = "0.1.0"
edition = "2021"
publish = false

[dependencies]
anyhow = "*"
http = "*"
opentelemetry = "*"
opentelemetry-http = "*"
opentelemetry-otlp = { version = "*", default-features = false, features = ["grpc-tonic", "trace"] }
opentelemetry_sdk = "*"
opentelemetry-semantic-conventions = "*"
tonic = "*"
tower = "*"
tower-http = { version = "*", features = ["trace"] }
tracing = "*"
tracing-opentelemetry = "*"
tracing-subscriber = { version = "*", features = ["env-filter", "json", "fmt"] }
