[package]
name = "anon_xfr"
version = "0.1.0"
edition = "2021"
publish = false

[dependencies]
bulletproofs = "=4.0.0"
curve25519-dalek = { version = "=4.1.3", features = ["rand_core"] }
curve25519-dalek-ng = "4"
digest = "=0.10.7"
merlin = "=3.0.0"
rand = "=0.8.8"
rand_chacha = "=0.3.1"
rand_core = "=0.6.4"
sha2 = "=0.10.9"
