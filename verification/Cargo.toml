[package]
name = "keccak_prime"
version = "0.1.0"
edition = "2021"
publish = false

[dependencies]
aes-gcm-siv = "*"
vdf = "*"
tiny-keccak = { version = "*", features = ["keccak"] }
