[package]
name = "drgraph"
version = "0.1.0"
edition = "2021"
publish = false

[dependencies]
rand = "0.4"
sha2 = "0.10"
blake2 = "0.10"
rayon = "1"
