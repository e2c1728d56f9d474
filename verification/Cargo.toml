[package]
name = "hybrid_net"
version = "0.1.0"
edition = "2021"
publish = false

[dependencies]
actix = "0.13"
actix-web = "4"
anyhow = "1"
chrono = "=0.4.45"
futures = "0.3"
lazy_static = "1"
log = "0.4"
metrics = "0.21"
rand = "=0.8.8"
tokio = { version = "1", features = ["sync", "rt", "net"] }
tokio-stream = "0.1"
url = "=2.5.8"
ya-client-model = "=0.7.0"
ya-relay-client = "0.2"
ya-sb-proto = "0.5"
ya-service-bus = "0.5"
