[package]
name = "fbrender"
version = "0.1.0"
edition = "2021"
publish = false

[dependencies]
noto-sans-mono-bitmap = { version = "=0.3.2", features = ["all"] }
bootloader_api = "=0.11.17"
