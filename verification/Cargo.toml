[package]
name = "battleship"
version = "0.1.0"
edition = "2021"
publish = false

[dependencies]
bs58 = "*"
calimero-sdk = "*"
calimero-storage = "*"
thiserror = "*"
