[package]
name = "nwt_auth"
version = "0.1.0"
edition = "2021"
publish = false

[dependencies]
base64-url = "2"
data-encoding = "2"
secp256k1 = "0.27"
serde = { version = "1", features = ["derive"] }
serde_json = "1"
sha2 = "0.10"
rocket = "=0.5.0-rc.3"
