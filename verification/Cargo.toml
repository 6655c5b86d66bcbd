[package]
name = "minsweeper_client"
version = "0.1.0"
edition = "2021"
publish = false

[dependencies]
minsweeper-rs = { version = "=2.1.0", features = ["tokio"] }
futures-util = "=0.3.34"
tokio = { version = "=1.53.2", features = ["rt", "rt-multi-thread", "time", "sync", "macros"] }
serde = { version = "=1.0.229", features = ["derive"] }
serde_json = "=1.0.151"
directories = "=6.0.0"
