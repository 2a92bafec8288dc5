[package]
name = "debug_session"
version = "0.1.0"
edition = "2021"
publish = false

[dependencies]
tokio = { version = "1", features = ["sync", "time"] }
tracing = "0.1"
