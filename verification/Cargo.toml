[package]
name = "span_batch_tx"
version = "0.1.0"
edition = "2021"
publish = false

[dependencies]
alloy-primitives = { version = "0.7", features = ["rlp"] }
alloy-rlp = "0.3"
