[package]
name = "riptar"
version = "0.1.0"
edition = "2021"
publish = false

[dependencies]
crc32fast = "1"
flate2 = "1"
image = { version = "0.25", default-features = false, features = ["png", "gif", "jpeg"] }
resvg = "0.37"
url = "2"
serde = { version = "1", features = ["derive"] }
worker = "*"
reqwest = { version = "*", default-features = false }
