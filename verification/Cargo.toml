[package]
name = "account_overrides"
version = "0.1.0"
edition = "2021"
publish = false

[dependencies]
dashmap = "5.5.3"
solana-account = "2.2"
solana-pubkey = "2.2"
solana-sdk-ids = "2.2"
