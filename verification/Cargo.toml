[package]
name = "media_queue"
version = "0.1.0"
edition = "2021"
publish = false

[dependencies]
uuid = { version = "1", features = ["v4"] }
dirs = "*"
tokio = { version = "1", features = ["rt-multi-thread", "macros", "time"] }
