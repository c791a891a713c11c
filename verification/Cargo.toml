[package]
name = "plonkish"
version = "0.1.0"
edition = "2021"
publish = false

[dependencies]
winterfell = "=0.4.2"
