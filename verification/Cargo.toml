[package]
name = "ais-forwarder"
version = "0.1.0"
edition = "2021"
publish = false

[dependencies]
nmea-parser = "*"
socket2 = "*"
clap = { version = "4", features = ["derive"] }
clap-verbosity-flag = "*"
config = "*"
env_logger = "*"
log = "0.4"
