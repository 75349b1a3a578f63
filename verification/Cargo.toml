[package]
name = "quote_stream"
version = "0.1.0"
edition = "2021"
publish = false

[dependencies]
rand = "0.8"
serde = { version = "1", features = ["derive"] }
serde_json = "1"
crossbeam-channel = "0.5"
clap = { version = "4", features = ["derive"] }
ctrlc = "3"
log = "0.4"
env_logger = "0.11"
