[package]
name = "video_transcoder"
version = "0.1.0"
edition = "2021"
publish = false

[dependencies]
mongodb = "2"
serde = { version = "1", features = ["derive"] }
serde_json = "1"
tokio = { version = "1", features = ["macros", "rt-multi-thread"] }
aws-config = { version = "1", features = ["behavior-version-latest"] }
aws-sdk-sqs = "1"
dotenv = "0.15"
ffmpeg-next = "*"
