[package]
name = "streamres"
version = "0.1.0"
edition = "2021"
publish = false

[dependencies]
aes = "=0.8.4"
cbc = { version = "=0.1.2", features = ["alloc", "block-padding"] }
dash-mpd = { version = "=0.16.6", default-features = false }
m3u8-rs = "=6.0.1"
serde = { version = "=1.0.229", features = ["derive"] }
