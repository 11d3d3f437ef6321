[package]
name = "topic_relay"
version = "0.1.0"
edition = "2021"
publish = false

[dependencies]
anyhow = "1"
xxhash-rust = { version = "0.8", features = ["xxh32"] }
