[package]
name = "headroom_proxy"
version = "0.1.0"
edition = "2021"
publish = false

[dependencies]
aws-credential-types = "1"
axum = { version = "0.7", features = ["ws"] }
bytes = "1"
futures-util = "0.3"
http = "1"
http-body-util = "0.1"
reqwest = { version = "0.12", default-features = false, features = ["http2", "rustls-tls", "stream"] }
serde_json = "1"
thiserror = "2"
tokio = { version = "1", features = ["net", "rt-multi-thread", "sync", "time"] }
tracing = "0.1"
url = "2"
uuid = { version = "1", features = ["v4"] }
