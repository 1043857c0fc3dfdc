[package]
name = "frens_indexer"
version = "0.1.0"
edition = "2021"
publish = false

[dependencies]
anyhow = "*"
substreams-solana = "*"
substreams-database-change = "*"
