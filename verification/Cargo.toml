[package]
name = "spotify_info"
version = "0.1.0"
edition = "2021"
publish = false

[dependencies]
futures-util = "*"
serde = { version = "*", features = ["derive"] }
serde_json = "*"
serde_with = "*"
tokio = { version = "*", features = ["net", "rt", "rt-multi-thread", "sync", "macros", "time"] }
tokio-tungstenite = "*"
