[package]
name = "trezor-thp"
version = "0.1.0"
edition = "2021"
publish = false

[dependencies]
heapless = "0.8"
hex = "0.4"
noise-protocol = "0.2"
noise-rust-crypto = "0.6"
