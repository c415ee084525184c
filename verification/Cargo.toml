[package]
name = "glinski_backend"
version = "0.1.0"
edition = "2021"
publish = false

[dependencies]
futures-util = "0.3"
serde = { version = "1", features = ["derive"] }
serde_derive = "1"
serde_json = "1"
tokio = { version = "1", features = ["macros", "rt-multi-thread", "sync"] }
tokio-stream = "0.1"
warp = "0.3"
