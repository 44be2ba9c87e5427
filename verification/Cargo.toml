[package]
name = "http_utils"
version = "0.1.0"
edition = "2021"
publish = false

[dependencies]
rand = "=0.9.5"
serde = "=1.0.229"
serde_json = "=1.0.151"
