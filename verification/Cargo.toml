[package]
name = "quilltip"
version = "0.1.0"
edition = "2021"
publish = false

[dependencies]
soroban-sdk = { version = "*", features = ["testutils"] }
stellar-access = "*"
stellar-contract-utils = "*"
stellar-macros = "*"
