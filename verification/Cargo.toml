[package]
name = "raw_engine"
version = "0.1.0"
edition = "2021"
publish = false

[dependencies]
image = "*"
base64 = "*"
rawler = "*"
serde = { version = "*", features = ["derive"] }
serde_json = "*"
anyhow = "*"
