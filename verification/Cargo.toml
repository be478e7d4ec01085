[package]
name = "redlock"
version = "0.1.0"
edition = "2021"
publish = false

[dependencies]
rand = "0.4"
redis = { version = "0.23", default-features = false }
time = "0.1"
