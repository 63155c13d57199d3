[package]
name = "halley-wl"
version = "0.1.0"
edition = "2021"
publish = false

[dependencies]
image = { version = "0.25", default-features = false, features = ["png", "jpeg"] }
xcursor = "0.3"
resvg = "*"
libc = "0.2"
