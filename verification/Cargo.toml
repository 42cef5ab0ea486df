[package]
name = "privacy_zkp"
version = "0.1.0"
edition = "2021"
publish = false

[dependencies]
sha2 = "=0.10.9"
curve25519-dalek = { version = "=4.1.3", features = ["digest", "rand_core"] }
rand = "=0.8.8"
rand_core = "=0.6.4"
aes-gcm = "=0.10.3"
serde = { version = "=1.0.229", features = ["derive"] }
bincode = "=1.3.3"
risc0-zkvm = "*"
napi = { version = "2", features = ["async"] }
napi-derive = "2"
