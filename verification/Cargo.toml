[package]
name = "btc_drop_claims"
version = "0.1.0"
edition = "2021"
publish = false

[dependencies]
hex = "*"
base58ck = "*"
sha2 = "*"

[dev-dependencies]
omni-transaction = "*"
