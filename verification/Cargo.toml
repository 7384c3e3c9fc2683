[package]
name = "regvm"
version = "0.1.0"
edition = "2021"
publish = false

[dependencies]
bytes = "=1.12.1"

[dev-dependencies]
bytes = "=1.12.1"
