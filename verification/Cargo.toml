[package]
name = "ec_public_key"
version = "0.1.0"
edition = "2021"
publish = false

[dependencies]
untrusted = "*"

[dev-dependencies]
num-bigint = "*"
