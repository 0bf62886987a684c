[package]
name = "ledger_factory"
version = "0.1.0"
edition = "2021"
publish = false

[dependencies]
casper-contract = { version = "1", default-features = false }
casper-types = "1"
hex = "0.4"
