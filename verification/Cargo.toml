[package]
name = "finchart"
version = "0.1.0"
edition = "2021"
publish = false

[dependencies]
chrono = "=0.4.45"
url = "=2.5.8"
serde = { version = "1", features = ["derive"] }
serde_json = "1"
log = "0.4"
env_logger = "0.10"
tokio = { version = "1", features = ["rt-multi-thread", "macros", "fs", "io-util", "time"] }
tokio-util = { version = "0.7", features = ["compat"] }
futures = "0.3"
hyper = { version = "0.14", features = ["client", "http1", "tcp", "stream"] }
hyper-tls = "0.5"
clap = { version = "4", features = ["derive"] }
