[package]
name = "xcdp_core"
version = "0.1.0"
edition = "2021"
publish = false

[dependencies]
base64 = "0.13"
ethers = { version = "2", default-features = false }
serde_json = "1"
l1x-sdk = "*"
log = "0.4"
