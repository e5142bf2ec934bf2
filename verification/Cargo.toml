[package]
name = "wormhole-core"
version = "0.1.0"
edition = "2021"
publish = false

[dependencies]
async-fs = "2"
futures-lite = "2"
magic-wormhole = "0.7"
thiserror = "*"
uniffi = "*"
