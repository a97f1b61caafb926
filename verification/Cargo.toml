[package]
name = "palmar-velle"
version = "0.1.0"
edition = "2021"
publish = false

[dependencies]
anyhow = "1"
env_logger = "0.11"
log = "0.4"
image = { version = "0.25", default-features = false, features = ["png"] }
nokhwa = { version = "0.10", features = ["input-native"] }
opencv = "*"
ort = "2.0.0-rc.10"
uinput = "0.1"
