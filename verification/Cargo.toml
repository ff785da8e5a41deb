[package]
name = "kontemplate"
version = "0.1.0"
edition = "2021"
rust-version = "1.95"
publish = false

[dependencies]
liquid = "=0.25.1"
serde = { version = "=1.0.229", features = ["derive"] }
serde_json = "=1.0.151"
serde_yaml = "=0.9.34"
