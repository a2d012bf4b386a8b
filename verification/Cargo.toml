[package]
name = "wx_dump"
version = "0.1.0"
edition = "2021"
publish = false

[dependencies]
aes = "0.8"
anyhow = "1"
base64 = "0.22"
cbc = "0.1"
clap = { version = "4", features = ["derive"] }
hmac = "0.12"
lz4_flex = "0.11"
pbkdf2 = "0.12"
sha1 = "0.10"
walkdir = "2"
