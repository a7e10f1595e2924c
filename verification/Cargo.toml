[package]
name = "home_camera"
version = "0.1.0"
edition = "2021"
publish = false

[dependencies]
anyhow = "=1.0.104"
reqwest = { version = "=0.12.28", default-features = false, features = ["json"] }
serde_json = "=1.0.154"
shiguredo_mp4 = "=2026.5.0"
shiguredo_rtsp = "=2026.1.0-canary.2"
shiguredo_s3 = "=2026.1.0-canary.7"
thiserror = "=2.0.21"
time = { version = "=0.3.55", features = ["formatting", "parsing"] }
tokio = { version = "=1.54.1", features = ["macros", "rt-multi-thread"] }
