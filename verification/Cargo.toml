[package]
name = "assignments"
version = "0.1.0"
edition = "2021"
publish = false

[dependencies]
url = "2"
serde_json = "1"
serde = { version = "1", features = ["derive"] }
thiserror = "1"
tokio = { version = "1", features = ["full"] }
tokio-stream = "0.1"
futures = "0.3"
warp = "0.3"
reqwest = { version = "0.11", default-features = false, features = ["rustls-tls"] }
quick-xml = { version = "0.31", features = ["async-tokio"] }
wasm-bindgen = "0.2"
serde-wasm-bindgen = "0.6"
console_error_panic_hook = "0.1"
