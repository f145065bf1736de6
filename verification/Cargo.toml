[package]
name = "intfloat"
version = "0.1.0"
edition = "2021"
publish = false

[dependencies]
half = { version = "=2.7.1", features = ["num-traits"] }

[dev-dependencies]
num-traits = "=0.2.19"
rand = "=0.8.8"
