[package]
name = "polynomials"
version = "0.1.0"
edition = "2021"
publish = false

[dependencies]
num-integer = "0.1"
num-rational = { version = "0.4", default-features = false, features = ["std"] }
num-traits = "0.2"
