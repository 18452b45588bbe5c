[package]
name = "mechanics_config"
version = "0.1.1"
edition = "2021"
publish = false

[dependencies]
http = "1"
url = "2"
serde = { version = "1", features = ["derive"] }
serde_json = "1"
