[package]
name = "g1core"
version = "0.1.0"
edition = "2021"
publish = false

[dependencies]
blst = "*"
bls12_381 = "*"
