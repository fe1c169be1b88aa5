[package]
name = "image_compressor"
version = "0.1.0"
edition = "2021"
publish = false

[dependencies]
imagesize = "*"
libvips = "1"
serde = { version = "1", features = ["derive"] }
