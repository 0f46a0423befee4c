[package]
name = "machine_cat"
version = "0.1.0"
edition = "2021"
publish = false

[dependencies]
field-cat = "=0.1.0"
plonkish-cat = "=0.2.0"
proof-cat = "=0.3.0"
proof-cat-core = "=0.1.0"
