[package]
name = "voice_dictation"
version = "0.1.0"
edition = "2021"
publish = false

[dependencies]
regex = "1"
fast2s = "*"
hound = "3"
serde = { version = "1", features = ["derive"] }
serde_json = "1"
anyhow = "1"
log = "0.4"
tokio = { version = "1", features = ["full"] }
reqwest = { version = "0.12", default-features = false, features = ["multipart", "json", "rustls-tls"] }
futures-util = "0.3"
rusqlite = { version = "*", features = ["bundled"] }
cpal = "0.15"
arboard = "3"
enigo = "*"
whisper-rs = "*"
