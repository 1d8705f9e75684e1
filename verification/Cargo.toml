[package]
name = "camera_streaming"
version = "0.1.0"
edition = "2021"
publish = false

[dependencies]
amqprs = "*"
async-channel = "2"
async-trait = "0.1"
chrono = "0.4"
clap = { version = "4", features = ["derive"] }
cpal = "*"
http_parse = "*"
log = "0.4"
opencv = "*"
serde = { version = "1", features = ["derive"] }
serde_json = "1"
serde_yaml = "0.9"
thiserror = "*"
tokio = { version = "1", features = ["full"] }
tracing = "0.1"
tracing-subscriber = "0.3"
