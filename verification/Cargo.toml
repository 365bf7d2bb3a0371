[package]
name = "eth_core"
version = "0.1.0"
edition = "2021"
publish = false

[dependencies]
sha3 = "0.10"
libsecp256k1 = "0.7"
primitive-types = "0.12"
