[package]
name = "clf"
version = "0.8.0"
edition = "2021"
publish = false

[dependencies]
regex = "1"
serde = { version = "1", features = ["derive"] }
serde_yaml = "0.8"
serde_json = "1"
flate2 = "1"
log = "0.4"
simplelog = "0.12"
clap = "3"
wait-timeout = "0.2"
whoami = "1"
