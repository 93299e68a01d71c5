[package]
name = "paged_verifier"
version = "0.1.0"
edition = "2021"
publish = false

[dependencies]
sp-npos-elections = "*"
sp-arithmetic = "*"
parity-scale-codec = { version = "*", features = ["derive"] }
