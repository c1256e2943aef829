[package]
name = "edge_runtime_core"
version = "0.1.0"
edition = "2021"
publish = false

[dependencies]
http = "=1.5.0"
serde_json = "=1.0.154"
uuid = { version = "=1.29.0", features = ["v4"] }
num-traits = "=0.2.19"
tokio = { version = "=1.54.1", features = ["sync", "time", "io-util"] }
rustls-pemfile = "=2.2.0"
serde = { version = "=1.0.229", features = ["derive"] }
url = "=2.5.8"
urlencoding = "=2.1.3"
clap = { version = "4", features = ["env"] }
