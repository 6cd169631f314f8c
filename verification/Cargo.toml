[package]
name = "orbit"
version = "0.1.0"
edition = "2021"
publish = false

[dependencies]
chrono = "0.4"
image = "*"
libc = "0.2"
v4l = "*"
