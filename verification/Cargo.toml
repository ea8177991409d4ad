[package]
name = "verkle_trie"
version = "0.1.0"
edition = "2021"
publish = false

[dependencies]
bulletproofs = "=5.0.0"
curve25519-dalek = "=4.1.3"
merlin = "=3.0.0"
rand_core = { version = "0.6", features = ["getrandom"] }
