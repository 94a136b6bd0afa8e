[package]
name = "gpu_ecmult"
version = "0.1.0"
edition = "2021"
publish = false

[dependencies]
secp256k1 = "*"
rand = "*"
rayon = "*"
vulkano = "*"
