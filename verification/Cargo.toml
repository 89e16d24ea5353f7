[package]
name = "mosaic"
version = "0.1.0"
edition = "2021"
publish = false
rust-version = "1.95"

[dependencies]
wasmparser = "=0.263.0"
sha2 = "=0.11.1"
base64 = "=0.23.1"
serde = { version = "=1.0.229", features = ["derive"] }
serde_json = "=1.0.154"
anyhow = "=1.0.104"
libm = "=0.2.16"
uuid = { version = "=1.29.0", features = ["v4"] }
redb = "=4.4.0"
tokio = { version = "=1.54.1", features = ["rt-multi-thread", "macros", "net", "signal"] }
axum = "=0.8.9"
wasmtime = "=46.0.3"

[dev-dependencies]
wat = "=1.263.0"
