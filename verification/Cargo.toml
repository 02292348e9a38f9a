[package]
name = "csp_jplag"
version = "0.1.0"
edition = "2021"
publish = false

[dependencies]
anyhow = "1"
clap = { version = "3", features = ["derive", "cargo"] }
log = "0.4"
pretty_env_logger = "0.4"
