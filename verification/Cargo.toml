[package]
name = "notifier_hub"
version = "0.1.0"
edition = "2021"
publish = false

[dependencies]
smart_channel = "*"
thiserror = "*"
tokio = { version = "1", features = ["rt", "rt-multi-thread", "macros", "sync", "time"] }
