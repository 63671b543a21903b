[package]
name = "passkey_account"
version = "0.1.0"
edition = "2021"
publish = false

[dependencies]
p256 = "0.13"
sha2 = "0.10"
