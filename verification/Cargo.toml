[package]
name = "netlab-server"
version = "0.1.0"
edition = "2021"
publish = false

[dependencies]
anyhow = "=1.0.104"
async-trait = "=0.1.92"
axum = { version = "=0.7.9", features = ["ws"] }
dashmap = "=6.2.1"
futures-util = "=0.3.34"
metrics = "=0.23.1"
metrics-exporter-prometheus = { version = "=0.15.3", default-features = false }
once_cell = "=1.21.4"
parking_lot = "=0.12.5"
pkcs8 = { version = "0.10", features = ["encryption", "pem", "std"] }
rand = "=0.8.8"
rcgen = "=0.13.2"
rustls = { version = "=0.23.46", default-features = false, features = ["ring", "std", "logging", "tls12"] }
rustls-pemfile = "=2.2.0"
serde = { version = "=1.0.229", features = ["derive"] }
serde_json = "=1.0.154"
tokio = { version = "=1.54.1", features = ["full"] }
tokio-rustls = { version = "=0.26.6", default-features = false, features = ["ring", "logging", "tls12"] }
toml = "=0.8.23"
tower-http = { version = "=0.5.2", features = ["fs"] }
tracing = "=0.1.44"
tracing-subscriber = { version = "=0.3.23", features = ["env-filter"] }
uuid = { version = "=1.29.0", features = ["v4", "serde"] }

[dev-dependencies]
hex = "=0.4.3"
