[package]
name = "audio_bridge"
version = "0.1.0"
edition = "2021"
publish = false

[dependencies]
sha2 = "=0.10.9"
base64 = "=0.22.1"
rand = "0.8"
machine-uid = "0.5"
boringtun = "0.6"
serde = { version = "1", features = ["derive"] }
serde_json = "1"
cpal = { version = "0.15", default-features = false }
ringbuf = "0.3"
