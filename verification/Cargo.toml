[package]
name = "tncc"
version = "0.1.0"
edition = "2021"
publish = false

[dependencies]
clap = { version = "=3.0.0-beta.2", default-features = false, features = ["std"] }
env_logger = "0.8"
log = "0.4"
