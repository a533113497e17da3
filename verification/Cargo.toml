[package]
name = "espcap"
version = "0.1.0"
edition = "2021"
publish = false

[dependencies]
regex = "1"
regex-lite = "0.1"
serde = { version = "1", features = ["derive"] }
serde_json = "1"
clap = { version = "4", features = ["derive"] }
serialport = { version = "4", default-features = false }
libc = "0.2"
env_logger = "0.11"
log = "0.4"
thiserror = "2"
