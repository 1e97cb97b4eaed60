[package]
name = "gravity_bridge"
version = "0.1.0"
edition = "2021"
publish = false

[dependencies]
web3 = { version = "=0.19.0", default-features = false, features = ["signing"] }
primitive-types = { version = "=0.14.0", default-features = false }
parity-scale-codec = { version = "=3.7.5", features = ["derive"] }
