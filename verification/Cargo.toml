[package]
name = "keyremap"
version = "0.1.0"
edition = "2021"
publish = false

[dependencies]
kiri = "=0.3.0"
env_logger = "=0.11.11"
evdev = "=0.12.2"
log = "=0.4.34"
