[package]
name = "prism"
version = "0.1.0"
edition = "2021"
publish = false

[dependencies]
serde = { version = "=1.0.229", features = ["derive"] }
serde_json = "=1.0.151"
tokio = { version = "=1.53.2", features = ["process", "io-util", "rt-multi-thread", "macros", "sync", "fs"] }
dirs = "=7.0.0"
