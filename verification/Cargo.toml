[package]
name = "tcio"
version = "0.1.4"
edition = "2021"
publish = false

[dependencies]
bytes = "=1.12.1"
tokio = { version = "=1.54.1", features = ["net", "sync", "rt", "io-util"] }
