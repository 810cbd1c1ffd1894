[package]
name = "pagi_knowledge"
version = "0.1.0"
edition = "2021"
publish = false

[dependencies]
aes-gcm = "0.10"
serde = { version = "1", features = ["derive"] }
serde_json = "1"
sled = "0.34"
tracing = "0.1"
uuid = { version = "1", features = ["v4"] }

[dev-dependencies]
tempfile = "3"
