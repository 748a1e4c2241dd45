[package]
name = "jolt_core"
version = "0.1.0"
edition = "2021"
publish = false

[dependencies]
ark-curve25519 = "0.4"
ark-ec = "0.4"
ark-ff = "0.4"
ark-serialize = "0.4"
ark-std = "0.4"
merlin = "3"
rand = "0.8"
rand_core = "0.6"
