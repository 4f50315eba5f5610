[package]
name = "param_registry"
version = "0.1.0"
edition = "2021"
publish = false

[dependencies]
frame-support = "*"
frame-system = "*"
sp-io = "*"
sp-runtime = "*"
staging-xcm = "*"
parity-scale-codec = { version = "3", features = ["derive"] }
