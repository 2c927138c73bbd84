[package]
name = "did_wallet"
version = "0.1.0"
edition = "2021"
publish = false

[dependencies]
did-key = "=0.0.12"
didcomm-rs = "=0.4.0"
ed25519-dalek = "=1.0.1"
rand = "=0.7.3"
serde = { version = "=1.0.229", features = ["derive"] }
serde_json = "=1.0.154"
ssi = "=0.2.2"
async-std = { version = "=1.13.2", features = ["attributes"] }
bs58 = "=0.3.1"
did_url = "=0.1.0"
did-method-key = "=0.1.1"
chrono = "=0.4.45"
