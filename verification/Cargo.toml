[package]
name = "media_meta"
version = "0.1.0"
edition = "2021"
publish = false

[dependencies]
kamadak-exif = "*"
pdf = "0.8"
minidom = "*"
wasm-bindgen = "*"

[dev-dependencies]
serde_json = "*"
