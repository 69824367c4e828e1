[package]
name = "streamdeck_interface"
version = "0.1.0"
edition = "2021"
publish = false

[dependencies]
actix = "0.13"
actix-rt = "2"
actix-web = "4"
actix-web-actors = "4"
dotenv = "0.15"
env_logger = "0.10"
hidapi = "*"
log = "0.4"
rand = "0.8"
serde = { version = "1", features = ["derive"] }
serde_json = "1"
streamdeck = { version = "*", default-features = false }
tokio = { version = "1", features = ["sync", "time", "rt"] }
