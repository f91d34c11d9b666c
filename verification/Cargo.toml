[package]
name = "mev_bot"
version = "0.1.0"
edition = "2021"
publish = false

[dependencies]
anyhow = "=1.0.104"
ethers = { version = "=2.0.14", default-features = false, features = ["ws"] }
tokio = { version = "=1.54.1", features = ["macros", "rt-multi-thread", "time", "sync", "signal"] }
tracing = "=0.1.44"
tracing-subscriber = "=0.3.23"
