[package]
name = "casper"
version = "0.1.0"
edition = "2021"
publish = false

[dependencies]
jsonwebtoken = "9"
aes-gcm = "0.10"
hkdf = "0.12"
sha2 = "0.10"
base64 = "0.22"
rand = "0.9"
uuid = { version = "1", features = ["v7"] }
zeroize = "1"
hex = "0.4"
serde = { version = "1", features = ["derive"] }
serde_json = "1"

[dev-dependencies]
ring = "0.17"
