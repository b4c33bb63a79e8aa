[package]
name = "servocam"
version = "0.1.0"
edition = "2021"
publish = false

[dependencies]
anyhow = "1"
axum = { version = "*", features = ["ws"] }
drm-fourcc = "*"
image = { version = "*", default-features = false, features = ["jpeg"] }
libcamera = "*"
rppal = "*"
tokio = { version = "1", features = ["full"] }
