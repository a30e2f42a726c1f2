[package]
name = "substrate-account-filter"
version = "0.1.0"
edition = "2021"
publish = false

[dependencies]
parity-scale-codec = { version = "3.6", features = ["derive"] }
scale-info = { version = "2.9", features = ["derive"] }
sp-runtime = "=24.0.0"
sp-std = "=8.0.0"
