[package]
name = "videojocs"
version = "0.1.0"
edition = "2021"
publish = false

[dependencies]
rocket = { version = "0.5", features = ["json"] }
serde = { version = "1", features = ["derive"] }
serde_json = "1"
