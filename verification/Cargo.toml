[package]
name = "ascii_art"
version = "0.1.0"
edition = "2021"
publish = false

[dependencies]
image = { version = "0.24", default-features = false, features = ["png", "jpeg", "gif", "bmp"] }
