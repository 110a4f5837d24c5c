[package]
name = "pee"
version = "0.1.0"
edition = "2021"
publish = false

[dependencies]
env_logger = "=0.11.11"
log = "=0.4.35"
portable-pty = "=0.9.0"
serde_json = "=1.0.154"
uuid = { version = "=1.29.0", features = ["v4"] }
vt100 = "=0.16.2"
