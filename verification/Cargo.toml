[package]
name = "kourain_media"
version = "0.1.0"
edition = "2021"
publish = false

[dependencies]
kourain_core = "=1.0.5"
serde_json = "=1.0.154"
symphonia = { version = "=0.5.5", features = ["all"] }
tokio = { version = "=1.54.1", features = ["rt-multi-thread", "macros", "time"] }
yt-dlp = "=2.10.0"
reqwest = "=0.13.5"
