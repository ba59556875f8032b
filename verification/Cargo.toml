[package]
name = "mpqtt"
version = "0.1.0"
edition = "2021"
publish = false

[dependencies]
config = "0.10"
libc = "0.2"
log = "0.4"
mqtt-async-client = "0.1"
pretty_env_logger = "0.4"
serde = { version = "1", features = ["derive"] }
serde_derive = "1"
serde_json = "1"
tokio = { version = "0.2", features = ["full"] }
