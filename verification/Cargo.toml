[package]
name = "art_sketches"
version = "0.1.0"
edition = "2021"
publish = false

[dependencies]
rand = "0.8"
rayon = "1"
async-std = "1"
