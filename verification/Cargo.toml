[package]
name = "video_thumbs"
version = "0.1.0"
edition = "2021"
publish = false

[dependencies]
image = "*"
tokio = { version = "*", features = ["rt-multi-thread", "macros", "time", "sync", "fs"] }
walkdir = "*"
ffmpeg-next = "*"
