[package]
name = "atproto_oauth"
version = "0.1.0"
edition = "2021"
publish = false

[dependencies]
base64 = "=0.23.1"
elliptic-curve = "=0.13.8"
jose-jwk = "=0.1.2"
p256 = "=0.13.2"
rand = "=0.10.3"
serde = { version = "=1.0.229", features = ["derive"] }
serde_json = "=1.0.151"
sha2 = "=0.11.0"
