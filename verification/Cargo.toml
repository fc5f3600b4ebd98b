[package]
name = "sibling"
version = "3.0.0"
edition = "2021"
publish = false

[dependencies]
rand = "0.9"
clap = { version = "4", features = ["derive"] }
clap_complete = "4"
env_logger = "0.11"
log = "0.4"
rust-embed = "8"
