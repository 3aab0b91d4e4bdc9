[package]
name = "static_files"
version = "0.1.0"
edition = "2021"
publish = false

[dependencies]
mime_guess = "2"
path-slash = "*"
change-detection = "*"
