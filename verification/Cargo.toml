[package]
name = "passthrough"
version = "0.1.0"
edition = "2021"
publish = false

[dependencies]
ringbuf = "0.4"
nannou_audio = "*"
