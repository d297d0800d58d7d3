[package]
name = "numerical"
version = "0.1.0"
edition = "2021"
publish = false

[dependencies]
approx = "=0.5.1"
core_float = "=0.3.1"

[dev-dependencies]
rand = "0.8"
