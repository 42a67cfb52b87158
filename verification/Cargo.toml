[package]
name = "reth_era"
version = "0.1.0"
edition = "2021"
publish = false

[dependencies]
snap = "1"
sha2 = "0.10"
alloy-consensus = "*"
alloy-primitives = "*"
alloy-rlp = "*"
