[package]
name = "xhc_core"
version = "0.1.0"
edition = "2021"
publish = false

[dependencies]
anyhow = { version = "1", default-features = false }
uefi = "0.27"
x86_64 = { version = "0.15", default-features = false, features = ["instructions"] }
