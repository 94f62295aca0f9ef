[package]
name = "web3_proxy"
version = "0.1.0"
edition = "2021"
publish = false

[dependencies]
anyhow = "=1.0.104"
argh = "=0.1.19"
axum = { version = "=0.7.9", features = ["ws"] }
dashmap = "=5.5.3"
fdlimit = "=0.3.0"
flume = "=0.11.1"
futures = "=0.3.34"
linked-hash-map = "0.5"
notify = "=4.0.18"
parking_lot = "=0.12.5"
proctitle = "=0.1.1"
quick_cache = "=0.6.24"
reqwest = { version = "=0.12.28", default-features = false, features = ["json"] }
rust_decimal = "=1.43.0"
serde = { version = "=1.0.229", features = ["derive"] }
serde_json = "=1.0.154"
tokio = { version = "=1.54.1", features = ["full"] }
tokio-stream = { version = "=0.1.19", features = ["sync"] }
toml = "=0.8.23"
tracing = "=0.1.44"
tracing-subscriber = { version = "=0.3.23", features = ["env-filter"] }
uuid = "=1.29.0"
