[package]
name = "mentorminds"
version = "0.1.0"
edition = "2021"
publish = false

[dependencies]
soroban-sdk = "=29.0.1"

[dev-dependencies]
proptest = "=1.12.0"
