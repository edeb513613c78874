[package]
name = "crowd"
version = "0.1.0"
edition = "2021"
publish = false

[dependencies]
dashmap = "*"
flume = "*"
tokio = { version = "*", features = ["rt", "rt-multi-thread", "macros"] }
