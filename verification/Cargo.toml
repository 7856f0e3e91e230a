[package]
name = "cardinal3"
version = "0.1.0"
edition = "2021"
publish = false

[dependencies]
elf = { version = "0.7", default-features = false }
spin = "0.9"
