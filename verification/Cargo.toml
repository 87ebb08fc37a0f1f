[package]
name = "bencher"
version = "0.1.0"
edition = "2021"
publish = false

[dependencies]
clap = { version = "4", features = ["derive"] }
serde = { version = "1", features = ["derive"] }
serde_json = "1"
serde_yaml = "0.9"
tokio = { version = "1", features = ["full"] }
reqwest = { version = "0.12", default-features = false, features = ["json", "multipart"] }
rust-s3 = "*"
tracing = "0.1"
tracing-subscriber = "0.3"
rand = "0.8"
rand_chacha = "0.3"
parking_lot = "0.12"
dashmap = "*"
lazy_static = "1"
