[package]
name = "pallet-swallower"
version = "0.1.0"
edition = "2021"
publish = false

[dependencies]
parity-scale-codec = { version = "*", features = ["derive"] }
scale-info = { version = "*", features = ["derive"] }
sp-io = "*"
sp-core = "*"
sp-runtime = "*"
frame-support = "*"
frame-system = "*"
