[package]
name = "op_loader"
version = "0.1.0"
edition = "2021"
publish = false

[dependencies]
anyhow = "*"
clap = { version = "*", features = ["derive"] }
clap-verbosity-flag = "*"
confy = "*"
crossterm = "*"
env_logger = "*"
fuzzy-matcher = "*"
log = "*"
ratatui = "*"
serde = { version = "*", features = ["derive"] }
serde_json = "*"
