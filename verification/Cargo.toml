[package]
name = "surfman_chains"
version = "0.1.0"
edition = "2021"
publish = false

[dependencies]
euclid = "=0.20.14"
fnv = "=1.0.7"
log = "0.4"
sparkle = "=0.1.26"
surfman = { version = "=0.1.4", features = ["sm-osmesa"] }
