[package]
name = "tokio-io-utility"
version = "0.1.0"
edition = "2021"
publish = false

[dependencies]
bytes = "1"
parking_lot = "0.12"
tokio = { version = "1", features = ["io-util", "sync"] }

[dev-dependencies]
rayon = "1"
