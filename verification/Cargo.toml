[package]
name = "server"
version = "0.1.0"
edition = "2021"
publish = false

[dependencies]
tokio = { version = "1", features = ["sync", "rt-multi-thread", "macros"] }
websocket = { version = "*", default-features = false, features = ["sync"] }
serde = { version = "1", features = ["derive"] }
serde_json = { version = "1" }
