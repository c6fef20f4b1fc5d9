[package]
name = "slipway"
version = "0.1.0"
edition = "2021"
publish = false

[dependencies]
tokio = { version = "=1.54.1", features = ["macros", "rt-multi-thread"] }
web-time = "=1.1.0"
