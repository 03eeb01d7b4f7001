[package]
name = "rsh"
version = "0.1.0"
edition = "2021"
publish = false

[dependencies]
anyhow = "*"
clap = { version = "*", features = ["derive"] }
crossterm = "*"
env_logger = "*"
serde = { version = "*", features = ["derive"] }
toml = "*"
