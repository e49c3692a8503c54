[package]
name = "solcli"
version = "0.1.0"
edition = "2021"
publish = false

[dependencies]
anyhow = "1"
bs58 = "0.5"
clap = { version = "4", features = ["derive"] }
dotenvy = "0.15"
solana-sdk = "2.3"
