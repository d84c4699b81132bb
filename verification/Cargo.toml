[package]
name = "chain_head"
version = "0.1.0"
edition = "2021"
publish = false

[dependencies]
array-bytes = "=6.2.3"
futures = "=0.3.34"
jsonrpsee = { version = "=0.26.1", features = ["server"] }
log = "=0.4.34"
parity-scale-codec = "=3.7.5"
sp-api = "=44.0.0"
sp-blockchain = "=47.0.0"
sp-core = "=43.0.0"
sp-runtime = "=49.0.0"
