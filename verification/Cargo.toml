[package]
name = "moaremotes"
version = "0.1.0"
edition = "2021"
publish = false

[dependencies]
crossterm = "0.28"
futures = "0.3"
reqwest = "0.12"
serde_json = "1"
tokio = { version = "1", features = ["macros", "rt-multi-thread", "time"] }
