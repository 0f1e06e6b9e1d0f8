[package]
name = "mootrade"
version = "0.1.0"
edition = "2021"
publish = false

[dependencies]
rand = "0.8"
chrono = { version = "0.4", default-features = false, features = ["clock"] }
bs58 = "0.5"
solana-keypair = "*"
solana-signer = "*"
alloy = { version = "*", default-features = false, features = ["signer-local"] }
flate2 = "1"
bincode = "1"
serde = { version = "1", features = ["derive"] }
serde_json = "1"
serde_qs = "0.13"
reqwest = { version = "0.12", default-features = false, features = ["blocking", "json"] }
