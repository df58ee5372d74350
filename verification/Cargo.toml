[package]
name = "kalandra_kapital"
version = "0.1.0"
edition = "2021"
publish = false

[dependencies]
base64 = "*"
serde_json = "*"
log = "*"
env_logger = "*"
reqwest = { version = "*", default-features = false, features = ["blocking", "cookies", "json"] }
