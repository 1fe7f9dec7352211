[package]
name = "wallet_mdoc"
version = "0.1.0"
edition = "2021"
publish = false

[dependencies]
aes-gcm = "0.10"
chrono = "0.4"
ciborium = "0.2"
coset = "0.3"
indexmap = "2"
p256 = { version = "0.13", features = ["ecdh", "ecdsa", "pem", "pkcs8", "std"] }
rcgen = { version = "0.11", features = ["x509-parser"] }
ring = "0.17"
rustls-webpki = "0.101"
serde = { version = "1", features = ["derive"] }
serde_bytes = "0.11"
serde_json = "1"
thiserror = "1"
x509-parser = "0.15"
