[package]
name = "edgetunnel"
version = "0.1.0"
edition = "2021"
publish = false

[dependencies]
base64 = "=0.22.1"
console_error_panic_hook = "=0.1.7"
futures-util = { version = "=0.3.34", features = ["io", "sink"] }
md5 = "=0.7.0"
serde = { version = "=1.0.229", features = ["derive"] }
serde_json = "=1.0.154"
tokio = { version = "=1.54.1", default-features = false, features = ["io-util"] }
urlencoding = "=2.1.3"
uuid = "=1.29.0"
wasm-bindgen-futures = "=0.4.80"
worker = "=0.8.7"
