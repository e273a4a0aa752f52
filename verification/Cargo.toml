[package]
name = "podcast_worker"
version = "0.1.0"
edition = "2021"
publish = false

[dependencies]
chrono = { version = "=0.4.45", features = ["serde"] }
clokwerk = "=0.4.0"
tokio = { version = "=1.54.1", features = ["rt-multi-thread", "macros", "time", "net"] }
tokio-util = "=0.7.20"
sled = { version = "=0.34.7", features = ["compression"] }
serde = { version = "=1.0.229", features = ["derive"] }
serde_json = "=1.0.154"
async-graphql = { version = "=7.2.1", features = ["chrono", "url"] }
async-graphql-axum = "=7.2.1"
axum = "=0.8.9"
hyper = "=1.12.0"
tower-http = { version = "=0.7.1", features = ["cors"] }
eyre = "=0.6.14"
thiserror = "=2.0.21"
lazy_static = "=1.5.1"
url = { version = "=2.5.8", features = ["serde"] }
