[package]
name = "digit_canvas"
version = "0.1.0"
edition = "2021"
publish = false

[dependencies]
image = "*"
sfml = "*"
tch = "*"
thiserror = "*"
