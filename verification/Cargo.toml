[package]
name = "zencodec"
version = "0.1.0"
edition = "2021"
publish = false

[dependencies]
zenpixels = "*"
enough = "*"
almost-enough = "*"
whereat = "*"

[dev-dependencies]
kamadak-exif = "*"
