[package]
name = "rusty_toolkit"
version = "0.1.0"
edition = "2021"
publish = false

[dependencies]
base64 = "*"
chrono = "*"
clap = { version = "*", features = ["derive"] }
csv = "*"
dirs = "*"
env_logger = "*"
indicatif = "*"
inquire = "*"
log = "*"
ring = "*"
rusqlite = { version = "*", features = ["bundled"] }
serde = { version = "*", features = ["derive"] }
toml = "*"
