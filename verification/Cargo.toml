[package]
name = "pfhs"
version = "0.1.0"
edition = "2021"
publish = false

[dependencies]
bls-signatures = "*"
rand = "0.8"
bs58 = "*"

[dev-dependencies]
borsh = "*"
