[package]
name = "mychain"
version = "0.1.0"
edition = "2021"
publish = false

[dependencies]
blake3 = "1"
sha2 = "0.10"
sled = "0.34"
fastcrypto = "*"
rand = "0.8"
p256 = "0.13"
hex = "0.4"
bincode = "1"

[dev-dependencies]
tempfile = "3"
