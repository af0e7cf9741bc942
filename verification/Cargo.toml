[package]
name = "signer_core"
version = "0.1.0"
edition = "2021"
publish = false

[dependencies]
sha2 = "0.10"
k256 = "0.13"
bip32 = "0.5"
zeroize = "1"
