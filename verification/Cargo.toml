[package]
name = "solana-keypair-manager"
version = "0.1.0"
edition = "2021"
publish = false

[dependencies]
aes = "0.8"
base64 = "0.13"
bincode = "1.3"
clap = { version = "4", features = ["derive"] }
ctr = "0.9"
rpassword = "7"
solana-sdk = "1.18"
