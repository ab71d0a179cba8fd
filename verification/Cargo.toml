[package]
name = "gallery_assets"
version = "0.1.0"
edition = "2021"
publish = false

[dependencies]
ahash = "0.8"
crossbeam-channel = "0.5"
env_logger = "0.11"
glam = "0.29"
image = { version = "0.25", default-features = false, features = ["gif", "jpeg", "png"] }
log = "0.4"
