[package]
name = "ferridriver"
version = "0.1.0"
edition = "2021"
publish = false

[dependencies]
serde_json = "1"
thiserror = "*"
xxhash-rust = { version = "0.8", features = ["xxh3"] }
