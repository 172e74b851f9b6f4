[package]
name = "dojo_world"
version = "0.1.0"
edition = "2021"
publish = false

[dependencies]
anyhow = "1"
cainome = "=0.5.1"
starknet = "=0.13.0"
starknet-crypto = "=0.7.4"
starknet-types-core = "=0.1.7"
tracing = "0.1"
