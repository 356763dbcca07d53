[package]
name = "invariant_clamm"
version = "0.1.0"
edition = "2021"
publish = false

[dependencies]
primitive-types = { version = "0.12", default-features = false }
