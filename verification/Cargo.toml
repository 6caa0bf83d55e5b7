[package]
name = "fireworks"
version = "0.1.0"
edition = "2021"
publish = false

[dependencies]
nannou = { version = "0.18.1", default-features = false }
