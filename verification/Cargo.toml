[package]
name = "onchain_programs"
version = "0.1.0"
edition = "2021"
publish = false

[dependencies]
anchor-lang = { version = "0.29.0", features = ["init-if-needed"] }
borsh = "0.10"
num-derive = "0.4"
num-traits = "0.2"
solana-program = "1.17"
