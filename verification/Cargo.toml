[package]
name = "less-avc"
version = "0.1.0"
edition = "2021"
publish = false

[dependencies]
anyhow = "1"
bitvec = "1"
memchr = "2"
semver = "1"
tiff = "*"
y4m = "*"

[dev-dependencies]
h264-reader = "*"
openh264 = "*"
