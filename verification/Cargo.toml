[package]
name = "willow"
version = "0.1.0"
edition = "2021"
publish = false

[dependencies]
anyhow = "*"
chrono = "*"
clap = { version = "*", features = ["derive"] }
ctrlc = "*"
env_logger = "*"
glob = "*"
log = "*"
notify = "*"
notify-debouncer-full = "*"
regex = "*"
serde = { version = "*", features = ["derive"] }
serde_derive = "*"
serde_yaml = "*"
