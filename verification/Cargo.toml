[package]
name = "repo_contract"
version = "0.1.0"
edition = "2021"
publish = false

[dependencies]
bigint = "4"
parity-hash = "1"
pwasm-std = "0.6"
pwasm-ethereum = "0.3"
pwasm-abi = "0.1"
pwasm-abi-derive = "0.1"
