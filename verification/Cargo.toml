[package]
name = "whereyoufrom"
version = "0.1.0"
edition = "2021"
publish = false

[dependencies]
tokio = { version = "1", features = ["rt", "net", "io-util", "signal"] }
