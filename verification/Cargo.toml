[package]
name = "jlo"
version = "0.1.0"
edition = "2021"
publish = false

[dependencies]
chrono = "0.4"
dialoguer = "0.11"
serde = { version = "1", features = ["derive"] }
serde_json = "1"
serde_yaml = "0.9"
toml = "0.8"
url = "2"
