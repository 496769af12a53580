[package]
name = "arena_engine"
version = "0.1.0"
edition = "2021"
publish = false

[dependencies]
base64 = "0.13"
euclid = "0.22"
futures = "0.3"
rand = "0.8"
serde = { version = "1", features = ["derive"] }
serde_json = "1"
tokio = { version = "1", features = ["io-util", "macros", "process", "rt-multi-thread", "sync", "time"] }
warp = { version = "0.3", default-features = false, features = ["websocket"] }
