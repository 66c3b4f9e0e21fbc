[package]
name = "daapstt"
version = "0.1.0"
edition = "2021"
publish = false

[dependencies]
anyhow = "1"
base64 = "0.22"
crossterm = "0.28"
dirs = "5"
env_logger = "0.11"
evdev = "0.12"
futures-util = { version = "0.3", features = ["sink"] }
libc = "0.2"
log = "0.4"
reqwest = { version = "0.12", default-features = false, features = ["multipart", "rustls-tls"] }
serde = { version = "1", features = ["derive"] }
serde_json = "1"
tokio = { version = "1", features = ["full"] }
tokio-tungstenite = { version = "0.26", features = ["rustls-tls-webpki-roots"] }
unicode-segmentation = "1"
url = "2"
