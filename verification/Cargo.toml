[package]
name = "ik_chain"
version = "0.1.0"
edition = "2021"
publish = false

[dependencies]
bevy = { version = "0.6", default-features = false, features = ["render"] }
itertools = "0.10"
nalgebra = "0.30"
rand = "0.8"
