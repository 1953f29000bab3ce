[package]
name = "stream-ws"
version = "0.1.0"
edition = "2021"
publish = false

[dependencies]
futures = "0.3"
pin-project = "1"
tokio = { version = "1", default-features = false }
tungstenite = "0.21"
gloo-net = { version = "0.5", default-features = false, features = ["websocket"] }
