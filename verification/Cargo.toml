[package]
name = "kaspa_signature_verification"
version = "0.1.0"
edition = "2021"
publish = false

[dependencies]
secp256k1 = "=0.33.1"
sha2 = "=0.10.9"
hmac = "=0.12.1"
ripemd = "=0.1.3"
hex = "=0.4.3"
bs58 = "=0.5.1"
kaspa-addresses = "=2.1.0"
bip39 = "=3.0.0"
rand = "=0.10.3"
rpassword = "=7.5.4"
num_cpus = "=1.17.0"

[dev-dependencies]
kaspa-bip32 = "=2.1.0"
