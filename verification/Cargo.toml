[package]
name = "domain-core"
version = "0.1.0"
edition = "2021"
publish = false

[dependencies]
bytes = "1"
derive_more = "0.99"
smallvec = "1"
