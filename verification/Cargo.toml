[package]
name = "linkmouse"
version = "0.1.0"
edition = "2021"
publish = false

[dependencies]
async-trait = "0.1"
rand = "0.8"
serde = { version = "1", features = ["derive"] }
serde_json = "1"
tokio = { version = "1", features = ["rt-multi-thread", "macros", "time", "sync", "net", "signal"] }
tokio-tungstenite = "*"
futures-util = "0.3"
webrtc = "*"
