[package]
name = "wowedit"
version = "0.1.0"
edition = "2021"
publish = false

[dependencies]
wow-blp = "=0.7.0"
wow-mpq = "=0.7.0"
glam = "=0.34.2"
anyhow = "=1.0.104"
log = "=0.4.35"
env_logger = "=0.11.11"

[dev-dependencies]
image = "=0.25.10"
