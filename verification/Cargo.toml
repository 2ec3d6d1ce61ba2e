[package]
name = "atst"
version = "0.1.0"
edition = "2021"
publish = false

[dependencies]
env_logger = "*"
log = "0.4"
regex = "1"
structopt = "0.3"
thiserror = "1"
wait-timeout = "0.2"
yaml-rust = "0.4"
