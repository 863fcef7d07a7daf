[package]
name = "okx_md"
version = "0.1.0"
edition = "2021"
publish = false

[dependencies]
tokio = { version = "*", features = ["full"] }
tokio-tungstenite = "*"
futures-util = "*"
http = "*"
reqwest = { version = "*", default-features = false }
serde = { version = "*", features = ["derive"] }
serde_json = "*"
serde_urlencoded = "*"
log = "*"
eyre = "*"
