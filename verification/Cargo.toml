[package]
name = "tstit"
version = "0.1.0"
edition = "2021"
publish = false

[dependencies]
serde_json = "*"
serde = { version = "*", features = ["derive"] }
toml = "*"
argh = "*"
log = "*"
pretty_env_logger = "*"
