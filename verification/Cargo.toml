[package]
name = "git_ai"
version = "0.1.0"
edition = "2021"
publish = false

[dependencies]
opentelemetry = { version = "*", features = ["metrics"] }
opentelemetry-otlp = { version = "*", features = ["grpc-tonic", "http-proto", "metrics"] }
opentelemetry_sdk = { version = "*", features = ["metrics"] }
tonic = "*"
