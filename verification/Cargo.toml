[package]
name = "token_wallet"
version = "0.1.0"
edition = "2021"
publish = false

[dependencies]
ic-stable-structures = "*"
ic-cdk = "*"
candid = "*"
icrc-ledger-types = "*"
