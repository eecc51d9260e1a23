[package]
name = "athletes_offchain"
version = "0.1.0"
edition = "2021"
publish = false

[dependencies]
frame-system = "*"
parity-scale-codec = { version = "*", features = ["derive"] }
sp-io = "*"
sp-runtime = "*"
