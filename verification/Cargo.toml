[package]
name = "editor"
version = "0.1.0"
edition = "2021"
publish = false

[dependencies]
crossterm = "=0.29.0"
encoding_rs = "=0.8.42"
unicode-width = "=0.2.2"

[dependencies.ropey]
version = "=1.6.1"
default-features = false
features = ["simd"]
