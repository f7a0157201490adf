[package]
name = "homegw-rt"
version = "0.1.0"
edition = "2021"
publish = false

[dependencies]
anyhow = "1"
heapless = "0.8"
libc = "0.2"
serde = { version = "1", features = ["derive"] }
serde_json = { version = "1", features = ["raw_value"] }
tokio = { version = "1", features = ["rt", "net", "sync", "time"] }
tokio-stream = { version = "0.1", features = ["net"] }
tracing = "0.1"
tracing-subscriber = { version = "0.3", features = ["json"] }
warp = { version = "0.3", default-features = false }
