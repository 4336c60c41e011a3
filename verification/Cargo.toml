[package]
name = "shack-amqp-monitor"
version = "0.1.0"
edition = "2021"
publish = false

[dependencies]
anyhow = "1"
flexi_logger = "0.25"
futures = "0.3"
lazy_static = "1"
log = "0.4"
prometheus = "0.13"
prometheus_exporter = "0.8"
reqwest = { version = "0.11", default-features = false, features = ["json", "rustls-tls"] }
serde = { version = "1", features = ["derive"] }
serde_yaml = "0.9"
systemstat = "0.2"
tokio = { version = "1", features = ["full"] }
url = "2"
warp = "0.3"
