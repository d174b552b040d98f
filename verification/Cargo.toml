[package]
name = "homectl_core"
version = "0.1.0"
edition = "2021"
publish = false

[dependencies]
anyhow = "1"
async-std = "1"
config = { version = "*", default-features = false }
