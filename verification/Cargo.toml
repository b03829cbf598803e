[package]
name = "mumble_web_proxy"
version = "0.1.0"
edition = "2021"
publish = false

[dependencies]
bytes = "0.5"
futures = "=0.3.34"
libnice = "=0.2.2"
mumble-protocol = { version = "=0.3.1", features = ["webrtc-extensions"] }
openssl = "=0.10.82"
rtp = "=0.17.2"
tokio = { version = "=0.2.25", features = ["time"] }
webrtc-sdp = "=0.3.17"
webrtc-util = { version = "=0.17.2", default-features = false, features = ["marshal"] }
