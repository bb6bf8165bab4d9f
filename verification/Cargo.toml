[package]
name = "soundbytes"
version = "0.1.0"
edition = "2021"
publish = false

[dependencies]
cpal = "*"
crossbeam-channel = "*"
env_logger = "*"
log = "*"
relative-path = "*"
