[package]
name = "radix_engine_toolkit"
version = "0.1.0"
edition = "2021"
publish = false

[dependencies]
hex = "=0.4.3"
bech32 = "=0.9.1"
