[package]
name = "router_core"
version = "0.1.0"
edition = "2021"
publish = false

[dependencies]
serde_urlencoded = "0.7"
serde = { version = "1", features = ["derive"] }
async-lock = "2"
futures-channel = "0.3"
