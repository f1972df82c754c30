[package]
name = "dsh_lite"
version = "0.1.0"
edition = "2021"
publish = false

[dependencies]
serde = { version = "=1.0.229", features = ["derive"] }
serde_json = "=1.0.154"
serde_yaml = "=0.9.34"
yaml-rust2 = "=0.13.0"
bincode = "=1.3.3"
http = "=1.5.0"
image = { version = "=0.25.10", default-features = false, features = ["jpeg", "png", "gif", "webp", "bmp"] }
log = "=0.4.35"
env_logger = "=0.11.11"
chrono = "=0.4.45"
tokio = { version = "=1.54.1", features = ["full"] }
tokio-stream = "=0.1.19"
async-stream = "=0.3.6"
hyper = { version = "=1.12.0", features = ["client", "server", "http1"] }
hyper-util = { version = "=0.1.21", features = ["tokio"] }
http-body-util = "=0.1.5"
rustls = { version = "=0.23.46", default-features = false, features = ["ring", "std", "tls12", "logging"] }
tokio-rustls = { version = "=0.26.6", default-features = false, features = ["ring", "tls12", "logging"] }
rustls-native-certs = "=0.7.3"
russh = { version = "=0.65.0", default-features = false, features = ["ring"] }
