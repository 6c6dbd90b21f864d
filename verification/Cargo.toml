[package]
name = "drain_server"
version = "0.1.0"
edition = "2021"
publish = false

[dependencies]
flate2 = "1"
brotli = "7"
chrono = "0.4"
mime_guess = "2"
bstr = "1"
glob = "0.3"
serde = { version = "1", features = ["derive"] }
serde_json = "1"
tokio = { version = "1", features = ["full"] }
openssl = "0.10"
tokio-openssl = "0.6"
libloading = "0.8"
fork = "0.2"
bytes = "1"
