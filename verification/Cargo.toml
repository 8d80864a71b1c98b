[package]
name = "netstack"
version = "0.1.0"
edition = "2021"
publish = false

[dependencies]
anyhow = "*"
log = "*"
nix = { version = "*", features = ["ioctl", "socket"] }
signal-hook = "*"
tracing = "*"
tracing-log = "*"
tracing-subscriber = "*"
