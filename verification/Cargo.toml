[package]
name = "fancontrol"
version = "0.1.0"
edition = "2021"
publish = false

[dependencies]
clap = "2"
env_logger = "0.8"
lazy_static = "1"
libc = "0.2"
log = "0.4"
udev = "0.6"
