[package]
name = "message_worker"
version = "0.1.0"
edition = "2021"
publish = false

[dependencies]
tokio = { version = "1", features = ["rt"] }
tokio-stream = "0.1"
