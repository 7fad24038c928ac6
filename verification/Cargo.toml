[package]
name = "fibonacci_sphere"
version = "0.1.0"
edition = "2021"
publish = false

[dependencies]
rand = "0.8"
noise = "0.9"
thiserror = "1"
