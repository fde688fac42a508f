[package]
name = "file_service"
version = "0.1.0"
edition = "2021"
publish = false

[dependencies]
base64 = "0.13"
walkdir = "2"
serde = { version = "1", features = ["derive"] }

[dev-dependencies]
tempfile = "3"
