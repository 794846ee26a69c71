[package]
name = "mac2win"
version = "0.1.0"
edition = "2021"
publish = false

[dependencies]
image = { version = "0.25", default-features = false, features = ["png"] }
serde = { version = "1", features = ["derive"] }
serde_json = "1"
bincode = "1"
tokio = { version = "1", features = ["full"] }
log = "0.4"
env_logger = "0.11"
hostname = "0.4"
arboard = "3"
cpal = "0.15"
mdns-sd = "0.11"
