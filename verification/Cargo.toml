[package]
name = "wpass"
version = "0.1.0"
edition = "2021"
publish = false

[dependencies]
anyhow = "*"
clap = { version = "*", features = ["derive"] }
config = "*"
encoding = "*"
env_logger = "*"
log = "*"
rayon = "*"
serde = { version = "*", features = ["derive"] }
