[package]
name = "android_sender"
version = "0.1.0"
edition = "2021"
publish = false

[dependencies]
anyhow = "=1.0.104"
chrono = { version = "=0.4.45", features = ["serde"] }
crossbeam-channel = "=0.5.17"
gstreamer = "=0.23.7"
gstreamer-app = "=0.23.5"
gstreamer-video = "=0.23.6"
jni = "=0.21.1"
android_logger = "=0.15.1"
lazy_static = "=1.5.1"
log = "=0.4.35"
parking_lot = "=0.12.5"
serde = { version = "=1.0.229", features = ["derive"] }
serde_json = "=1.0.154"
tokio = { version = "=1.54.1", features = ["rt-multi-thread", "sync", "time", "macros"] }
tracing = "=0.1.44"
tracing-gstreamer = "0.8"
uuid = { version = "=1.29.0", features = ["v4", "serde"] }
