[package]
name = "kmscube"
version = "0.1.0"
edition = "2021"
publish = false

[dependencies]
anyhow = "=1.0.104"
log = "=0.4.34"
drm = "=0.14.1"
gbm = { version = "=0.18.0", default-features = false, features = ["drm-support"] }
khronos-egl = { version = "=6.0.0", features = ["dynamic"] }
edwardium_logger = "=1.2.2"
