[package]
name = "dodge"
version = "0.1.0"
edition = "2021"
publish = false

[dependencies]
bevy_prng = { version = "=0.13.0", features = ["rand_chacha"] }
rand_core = "=0.9.5"
