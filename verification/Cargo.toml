[package]
name = "wavmio"
version = "0.1.0"
edition = "2021"
publish = false

[dependencies]
hex = "0.4"
libc = "0.2"
parking_lot = "0.12"
