[package]
name = "dend-p2p"
version = "0.3.0"
edition = "2021"
publish = false

[dependencies]
anyhow = "1"
axum = "0.7"
bincode = "1"
clap = { version = "4", features = ["derive"] }
env_logger = "0.11"
log = "0.4"
once_cell = "1"
serde = { version = "1", features = ["derive"] }
serde_json = "1"
tokio = { version = "1", features = ["full"] }
toml = "0.8"
tun = { version = "0.6", features = ["async"] }
uuid = { version = "1", features = ["v4"] }
