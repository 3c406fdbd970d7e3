[package]
name = "stratum_proxy"
version = "0.1.0"
edition = "2021"
publish = false

[dependencies]
bitcoin = "0.13"
bytes = "0.4"
futures = "0.1"
rust-crypto = "0.2"
secp256k1 = "0.9"
tokio = "0.1"
tokio-io = "0.1"
tokio-timer = "0.1"
