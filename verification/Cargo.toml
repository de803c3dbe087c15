[package]
name = "thermal_viewer"
version = "0.1.0"
edition = "2021"
publish = false

[dependencies]
anyhow = "=1.0.104"
chrono = "=0.4.45"
dirs = "=7.0.0"
ecolor = "=0.37.0"
ffmpeg-next = "=9.0.0"
image = { version = "=0.25.10", default-features = false, features = ["png", "jpeg"] }
nokhwa = { version = "=0.10.11", features = ["input-native", "output-threaded"] }
serde = { version = "=1.0.229", features = ["derive"] }
serde_json = "=1.0.154"
uuid = { version = "=1.29.0", features = ["v4"] }
