[package]
name = "sbtb"
version = "0.1.0"
edition = "2021"
publish = false

[dependencies]
csv = "1"
fixed = "1"
lazy_static = "1.4"
memmap = "0.7"
rand = "0.7"
