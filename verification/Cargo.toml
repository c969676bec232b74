[package]
name = "chat_stream"
version = "0.1.0"
edition = "2021"
publish = false

[dependencies]
sha2 = "*"
uuid = { version = "*", features = ["v4"] }
serde = { version = "*", features = ["derive"] }
serde_json = "*"
tokio = { version = "*", features = ["sync", "rt-multi-thread", "macros"] }
actix = "*"
actix-web = "*"
actix-web-actors = "*"
actix-cors = "*"
eventstore = "*"
log = "*"
env_logger = "*"
eyre = "*"
