[package]
name = "nosebleed"
version = "0.1.0"
edition = "2021"
publish = false

[dependencies]
anyhow = "=1.0.104"
axum = { version = "0.8", features = ["ws"] }
base64 = "=0.22.1"
bytes = "=1.12.1"
clap = { version = "4", features = ["derive", "env"] }
gstreamer = "0.23"
gstreamer-app = "0.23"
hmac = "=0.12.1"
image = { version = "=0.25.10", default-features = false, features = ["png"] }
libloading = "0.8"
rtp = "=0.17.2"
serde = { version = "1", features = ["derive"] }
serde_json = "1"
sha2 = "=0.10.9"
tokio = { version = "1", features = ["full"] }
tungstenite = "0.20"
webrtc = "=0.17.2"
webrtc-ice = "=0.17.2"
webrtc-util = "=0.17.2"
