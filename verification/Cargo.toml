[package]
name = "spd3303x"
version = "0.1.0"
edition = "2021"
publish = false

[dependencies]
thiserror = "2"
tokio = { version = "1", features = ["io-util", "macros", "net", "rt", "sync"] }
