[package]
name = "identity-crypto"
version = "0.1.0"
edition = "2021"
publish = false

[dependencies]
anyhow = "1"
ed25519-dalek = { version = "2", features = ["rand_core"] }
hex = "0.4"
prost-types = "0.13"

[dev-dependencies]
rand = "0.8"
