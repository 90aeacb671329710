[package]
name = "perpetual"
version = "0.1.0"
edition = "2021"
publish = false

[dependencies]
solana-program = "2"
spl-token = "8"
borsh = "1"
thiserror = "2"

[dev-dependencies]
libsecp256k1 = "0.6"
