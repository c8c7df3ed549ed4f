[package]
name = "chunkcore"
version = "0.1.0"
edition = "2021"
publish = false

[dependencies]
lzzzz = "*"
serde = { version = "*", features = ["derive"] }
serde_json = "*"
