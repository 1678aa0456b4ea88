[package]
name = "memeroute"
version = "0.1.0"
edition = "2021"
publish = false

[dependencies]
regex = "1"
rust-dense-bitset = "0.1"
rust_decimal = "1"
eyre = "0.6"
