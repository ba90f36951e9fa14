[package]
name = "zmax_term"
version = "0.1.0"
edition = "2021"
publish = false

[dependencies]
imara-diff = "=0.2.0"
regex = "1"
