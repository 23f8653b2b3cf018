[package]
name = "proxy_crab_mitm"
version = "0.1.0"
edition = "2021"
publish = false

[dependencies]
anyhow = "1"
base64 = "0.22"
hyper = { version = "1", features = ["http1", "http2", "client", "server"] }
serde = { version = "1", features = ["derive"] }
serde_json = "1"
sha2 = "0.10"
thiserror = "2"
tokio = { version = "1", features = ["full"] }
tracing = "0.1"
tracing-subscriber = "0.3"
mlua = { version = "0.10", features = ["lua54", "vendored", "send"] }
flate2 = "1"
brotli = "7"
zstd = "0.13"
