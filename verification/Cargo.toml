[package]
name = "wlclient"
version = "0.1.0"
edition = "2021"
publish = false

[dependencies]
libc = "*"
errno = "*"
memmap = "*"
log = "*"
pretty_env_logger = "*"
