[package]
name = "elgamal_sigma"
version = "0.1.0"
edition = "2021"
publish = false

[dependencies]
ark-ec = "0.4"
ark-ed-on-bls12-381 = "0.4"
ark-ff = "0.4"
ark-serialize = "0.4"
ark-std = "0.4"
sha3 = "0.10"
