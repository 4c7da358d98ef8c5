[package]
name = "soundboard"
version = "0.1.0"
edition = "2021"
publish = false

[dependencies]
ogg = "0.9"
uuid = { version = "1", features = ["v4"] }
serde = { version = "1", features = ["derive"] }
serde_json = "1"
opus = "0.3"
rodio = "0.19"
cpal = "0.15"
