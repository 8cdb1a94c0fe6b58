[package]
name = "taskpipe"
version = "0.1.0"
edition = "2021"
publish = false

[dependencies]
regex = "1"
base64 = "0.22"
urlencoding = "2"
actix-web = "4"
serde = { version = "1", features = ["derive"] }
env_logger = "0.11"
