[package]
name = "mast_logup"
version = "0.1.0"
edition = "2021"
publish = false

[dependencies]
miden-crypto = "=0.22.6"
log = "=0.4.35"
