[package]
name = "bitwarden_ciphers"
version = "0.1.0"
edition = "2021"
publish = false

[dependencies]
data-encoding = "2"
serde = { version = "1", features = ["derive"] }
serde_json = "1"
multipart = { version = "0.18", default-features = false, features = ["server"] }
