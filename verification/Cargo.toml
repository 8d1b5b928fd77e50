[package]
name = "mission_control"
version = "0.1.0"
edition = "2021"
publish = false

[dependencies]
tokio = { version = "*", features = ["rt-multi-thread", "net", "io-util", "sync", "time", "macros"] }
log = "*"
env_logger = "*"
serde = { version = "*", features = ["derive"] }
serde_yaml = "*"
walkdir = "*"
