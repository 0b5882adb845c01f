[package]
name = "httpcore"
version = "0.1.0"
edition = "2021"
publish = false

[dependencies]
serde = { version = "1", features = ["derive"] }
serde_json = "1"
serde_urlencoded = "0.7"
tokio = { version = "1", features = ["net", "io-util", "sync", "rt-multi-thread", "macros"] }
futures = "0.3"
