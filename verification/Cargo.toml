[package]
name = "gateway_cache"
version = "0.1.0"
edition = "2021"
publish = false

[dependencies]
anyhow = "=1.0.104"
chrono = "=0.4.45"
fred = "=10.1.0"
futures = "=0.3.34"
prost = "=0.14.4"
redis = { version = "=1.7.1", features = ["tokio-comp", "connection-manager"] }
serde = { version = "*", features = ["derive"] }
serde_json = "=1.0.151"
signal-hook = "=0.4.5"
tokio = { version = "=1.53.2", features = ["full"] }
tracing = "*"
tracing-subscriber = "=0.3.23"
twilight-gateway = "=0.17.1"
twilight-model = "=0.17.1"
