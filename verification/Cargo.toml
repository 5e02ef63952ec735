[package]
name = "slot_limiter"
version = "0.1.0"
edition = "2021"

[dependencies]
crossbeam = "0.8"
