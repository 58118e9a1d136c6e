[package]
name = "setu_router"
version = "0.1.0"
edition = "2021"
publish = false

[dependencies]
blake3 = "*"
uuid = { version = "*", features = ["v4"] }
tokio = { version = "*", features = ["rt-multi-thread", "macros", "sync"] }
anyhow = "*"
tracing = "*"
tracing-subscriber = { version = "*", features = ["fmt"] }

[dev-dependencies]
sha2 = "*"
