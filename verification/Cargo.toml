[package]
name = "photoflow"
version = "0.1.0"
edition = "2021"
publish = false

[dependencies]
anyhow = "=1.0.104"
image = { version = "=0.24.9", default-features = false, features = ["jpeg", "png", "gif", "webp", "tiff"] }
kamadak-exif = "=0.5.5"
memmap2 = "=0.9.12"
rawloader = "=0.37.2"
rfd = "=0.15.4"
tracing = "=0.1.44"
tracing-subscriber = "=0.3.23"
