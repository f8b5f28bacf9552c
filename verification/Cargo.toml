[package]
name = "tiled"
version = "0.1.0"
edition = "2021"
publish = false

[dependencies]
base64 = "*"
libflate = "*"
quick-xml = "*"
zstd = "*"
