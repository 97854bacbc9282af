[package]
name = "receipt_manager"
version = "0.1.0"
edition = "2021"
publish = false

[dependencies]
borsh = "0.9"
near-crypto = "0.15"
near-primitives = "0.15"
near-primitives-core = "0.15"
near-vm-errors = "0.15"
