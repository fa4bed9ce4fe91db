[package]
name = "rush_cache_server"
version = "0.1.0"
edition = "2021"
publish = false

[dependencies]
rust-s3 = { version = "=0.38.0", default-features = false, features = ["tokio-rustls-tls", "fail-on-err"] }
actix-web = "=4.18.1"
tokio = { version = "=1.54.1", features = ["macros", "rt-multi-thread", "io-util"] }
tokio-util = { version = "=0.7.20", features = ["io"] }
futures = "=0.3.34"
serde = { version = "=1.0.229", features = ["derive"] }
serde_json = "=1.0.154"
secrecy = "=0.10.3"
dotenv = "=0.15.0"
tracing = "=0.1.44"
tracing-actix-web = "=0.7.25"
tracing-subscriber = { version = "=0.3.23", features = ["env-filter", "json"] }
tracing-appender = "=0.2.5"
tracing-opentelemetry = "=0.31.0"
opentelemetry = "=0.30.0"
opentelemetry_sdk = { version = "=0.30.0", features = ["rt-tokio"] }
opentelemetry-otlp = { version = "=0.30.0", features = ["grpc-tonic", "metrics", "trace"] }
sysinfo = "=0.35.2"
http = "=1.5.0"
url = "=2.5.8"
sha2 = "=0.10.9"
reqwest = { version = "=0.12.28", default-features = false }
quick-xml = "=0.41.0"
time = "=0.3.55"
