[package]
name = "can_expect"
version = "0.1.0"
edition = "2021"
publish = false

[dependencies]
socketcan = { version = "*", default-features = false }
serde = { version = "1", features = ["derive"] }
serde_yaml = "0.9"
