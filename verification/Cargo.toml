[package]
name = "combiner"
version = "0.1.0"
edition = "2021"
publish = false

[dependencies]
clap = { version = "4", features = ["derive"] }
color-eyre = "*"
colored = "*"
env_logger = "*"
eyre = "*"
ignore = "*"
indoc = "*"
itertools = "*"
log = "*"
serde_json = "1"
serde_yaml = "0.9"
