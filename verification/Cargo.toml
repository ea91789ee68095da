[package]
name = "hangul"
version = "0.1.0"
edition = "2021"
publish = false

[dependencies]
crossterm = "*"
csv = "*"
log = "*"
pretty_env_logger = "*"
serde = { version = "*", features = ["derive"] }
thiserror = "*"
