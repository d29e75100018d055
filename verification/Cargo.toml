[package]
name = "abi_stable"
version = "0.1.0"
edition = "2021"
publish = false

[dependencies]
parking_lot = "*"
hashbrown = "*"
syn = { version = "2", features = ["full", "visit-mut"] }
proc-macro2 = "1"
quote = "1"
