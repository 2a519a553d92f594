[package]
name = "gain_to_zero"
version = "0.1.0"
edition = "2021"
publish = false

[dependencies]
atomic_float = "*"
