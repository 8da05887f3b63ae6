[package]
name = "blockchain"
version = "0.1.0"
edition = "2021"
publish = false

[dependencies]
bincode = "=1.3.3"
hex = "=0.4.3"
rand = "0.8"
rsa = "=0.4.1"
serde = { version = "=1.0.229", features = ["derive"] }
sha2 = "=0.9.9"
