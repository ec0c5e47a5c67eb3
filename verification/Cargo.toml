[package]
name = "capturefs"
version = "0.1.0"
edition = "2021"
publish = false

[dependencies]
clap = { version = "3", features = ["cargo"] }
daemonize = "0.5"
env_logger = "0.9"
fuser = { version = "0.11", default-features = false }
libc = "0.2"
log = "0.4"
postgres = "0.19"
