[package]
name = "x8086"
version = "0.1.0"
edition = "2021"
publish = false

[dependencies]
uniffi = { version = "0.28", default-features = false }
