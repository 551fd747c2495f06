[package]
name = "sidestream"
version = "0.1.0"
edition = "2021"
publish = false

[dependencies]
serde_json = "1"
tokio = { version = "1", default-features = false, features = ["macros", "rt", "sync", "time"] }
tokio-util = "0.7"
futures = "0.3"
reqwest = { version = "0.12", default-features = false, features = ["json", "stream"] }
