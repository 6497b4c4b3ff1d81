[package]
name = "playwright_core"
version = "0.1.0"
edition = "2021"
publish = false

[dependencies]
base64 = "*"
dirs = "*"
regex = "*"
serde = { version = "*", features = ["derive"] }
serde_json = "*"
zip = { version = "*", default-features = false, features = ["deflate"] }
