[package]
name = "simulator"
version = "0.1.0"
edition = "2021"
publish = false

[dependencies]
inquire = "*"
serde = { version = "1", features = ["derive"] }
serde_json = "1"
