[package]
name = "axum_tungstenite"
version = "0.1.0"
edition = "2021"
publish = false

[dependencies]
async-trait = "0.1"
axum-core = "0.4"
base64 = "=0.22.1"
bytes = "=1.12.1"
futures-util = { version = "0.3", features = ["sink"] }
http = "=1.5.0"
hyper = { version = "=1.12.0", features = ["http1", "server"] }
hyper-util = { version = "0.1", features = ["tokio"] }
sha1 = "=0.10.7"
tokio = { version = "1", features = ["rt"] }
tokio-tungstenite = "=0.24.0"
