[package]
name = "chain_crawler"
version = "0.1.0"
edition = "2021"
publish = false

[dependencies]
anyhow = "1"
async-graphql = "6"
async-graphql-axum = "6"
axum = "0.6"
clap = { version = "4", default-features = false, features = ["derive", "std", "help", "usage", "error-context"] }
dotenv = "0.15"
ethers = { version = "2", default-features = false }
futures = "0.3"
kafka = { version = "0.10", default-features = false }
opentelemetry = "0.22"
opentelemetry-otlp = { version = "0.15", default-features = false, features = ["grpc-tonic", "trace"] }
opentelemetry-semantic-conventions = "0.14"
opentelemetry_sdk = { version = "0.22", features = ["rt-tokio"] }
serde = { version = "1", features = ["derive"] }
serde_json = "1"
tokio = { version = "1", features = ["macros", "rt-multi-thread", "sync", "time"] }
