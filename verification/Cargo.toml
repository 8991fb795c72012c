[package]
name = "tinyhttpd"
version = "0.1.0"
edition = "2021"
publish = false

[dependencies]
anyhow = "1"
serde = { version = "1", features = ["derive"] }
tokio = { version = "1", features = ["fs", "io-util", "macros", "net", "rt-multi-thread"] }
toml = "*"
tracing = "0.1"
tracing-subscriber = "0.3"
