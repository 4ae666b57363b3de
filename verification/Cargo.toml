[package]
name = "gorc_keystore"
version = "0.1.0"
edition = "2021"
publish = false

[dependencies]
sha2 = "*"
sha3 = "*"
ripemd = "*"
bech32 = "*"
k256 = "*"
bip32 = "*"
bip39 = "*"
aes-gcm = "*"
scrypt = "*"
rand = "*"
