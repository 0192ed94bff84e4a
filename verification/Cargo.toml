[package]
name = "sparse_matvec_r1cs"
version = "0.1.0"
edition = "2021"
publish = false

[dependencies]
ark-ff = "0.4"
ark-r1cs-std = "0.4"
ark-relations = "0.4"
ark-pallas = "0.4"
