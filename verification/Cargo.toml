[package]
name = "relay"
version = "0.1.0"
edition = "2021"
publish = false

[dependencies]
clap = "2"
serde_json = "1"
tokio = { version = "1", features = ["io-util", "macros", "net", "rt-multi-thread", "sync"] }
