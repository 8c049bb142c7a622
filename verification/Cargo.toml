[package]
name = "beefy_relay"
version = "0.1.0"
edition = "2021"
publish = false

[dependencies]
libsecp256k1 = "=0.7.2"
sha2 = "=0.10.9"
sha3 = "=0.10.9"
subtle-encoding = "=0.5.1"
