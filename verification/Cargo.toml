[package]
name = "corx"
version = "0.2.0"
edition = "2021"
publish = false

[dependencies]
anyhow = "=1.0.104"
axum = "=0.8.9"
bytes = "=1.12.1"
clap = { version = "=4.6.7", features = ["derive", "env"] }
dashmap = "=6.2.1"
foldhash = "=0.1.5"
hickory-resolver = "=0.24.4"
http = "=1.5.0"
http-body-util = "=0.1.5"
humantime-serde = "=1.1.1"
hyper = { version = "=1.12.0", features = ["client", "http1", "http2"] }
hyper-rustls = { version = "=0.27.10", default-features = false, features = ["http1", "http2", "ring"] }
hyper-util = { version = "=0.1.21", features = ["client", "client-legacy", "http1", "http2", "tokio"] }
idna = "=1.1.0"
ipnet = { version = "=2.12.2", features = ["serde"] }
metrics = "=0.24.6"
metrics-exporter-prometheus = { version = "=0.16.2", default-features = false }
percent-encoding = "=2.3.2"
rustls = { version = "=0.23.46", default-features = false, features = ["ring", "std", "tls12"] }
rustls-platform-verifier = "=0.5.3"
serde = { version = "=1.0.229", features = ["derive"] }
serde_json = "=1.0.154"
thiserror = "=2.0.21"
tokio = { version = "=1.54.1", features = ["macros", "net", "rt-multi-thread", "signal", "time"] }
toml = "=0.8.23"
tower = "=0.5.3"
tracing = "=0.1.44"
tracing-subscriber = { version = "0.3", default-features = false, features = ["ansi", "env-filter", "fmt", "json"] }
url = "=2.5.8"
uuid = { version = "=1.29.0", features = ["v7"] }
