[package]
name = "bots"
version = "0.1.0"
edition = "2021"
publish = false

[dependencies]
goban = { version = "=0.20.1", features = ["history"] }
gtp = "=0.1.2"
rand = "=0.8.8"
sgf-parse = "=4.2.8"
log = "=0.4.34"
env_logger = "=0.11.11"
