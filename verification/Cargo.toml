[package]
name = "quotefeed"
version = "0.1.0"
edition = "2021"
publish = false

[dependencies]
tokio = { version = "*", features = ["rt-multi-thread", "macros", "sync", "time"] }
tokio-tungstenite = "*"
futures-util = "*"
clap = { version = "*", features = ["derive"] }
serde = { version = "*", features = ["derive"] }
serde_json = "*"
anyhow = "*"
pin-utils = "*"
tracing-subscriber = "*"
