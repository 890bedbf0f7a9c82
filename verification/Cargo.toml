[package]
name = "kalesa"
version = "0.1.0"
edition = "2021"
publish = false

[dependencies]
serde = { version = "=1.0.229", features = ["derive"] }
serde_yaml = "=0.9.34"
thiserror = "=2.0.21"
clap = { version = "=4.6.7", features = ["derive"] }
env_logger = "=0.11.11"
log = "=0.4.35"
pelite = "=0.10.0"
image = { version = "=0.25.10", default-features = false, features = ["ico", "png"] }
bytemuck = "=1.25.2"
