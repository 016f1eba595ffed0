[package]
name = "liquidity_pool"
version = "0.1.0"
edition = "2021"
publish = false

[dependencies]
elrond-wasm = "=0.24.0"
elrond-wasm-derive = "=0.24.0"
