[package]
name = "changes_tries"
version = "0.1.0"
edition = "2021"
publish = false

[dependencies]
kvdb = "*"
kvdb-memorydb = "*"
parking_lot = "*"
