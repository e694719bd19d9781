[package]
name = "tx_script"
version = "0.1.0"
edition = "2021"
publish = false

[dependencies]
sha3 = "0.10"
hex = "0.4"
ed25519-dalek = "2"
bincode = "1"
serde = { version = "1", features = ["derive"] }
