[package]
name = "lambda-chaos-extension"
version = "0.1.0"
edition = "2021"
publish = false

[dependencies]
anyhow = "1"
async-trait = "0.1"
aws-config = { version = "1", features = ["behavior-version-latest"] }
aws-sdk-sts = { version = "1", features = ["behavior-version-latest"] }
aws-types = "1"
axum = "0.6"
clap = { version = "4", features = ["derive"] }
lambda-extension = "0.8"
lazy_static = "1"
log = "0.4"
mockall = "0.11"
rand = "0.8"
reqwest = { version = "0.11", default-features = false, features = ["rustls-tls"] }
serde_json = "1"
tokio = { version = "1", features = ["full"] }
tracing = "0.1"
tracing-subscriber = "0.3"
