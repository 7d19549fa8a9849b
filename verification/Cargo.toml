[package]
name = "sma_oracle"
version = "0.1.0"
edition = "2021"
publish = false

[dependencies]
anchor-lang = "0.29"
pyth-sdk-solana = "0.10"
