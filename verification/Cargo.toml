[package]
name = "wayland-proxy"
version = "0.1.0"
edition = "2021"
publish = false

[dependencies]
calloop = "0.14"
env_logger = "0.11"
libc = "0.2"
log = "0.4"
rustix = { version = "1", features = ["net"] }
