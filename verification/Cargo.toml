[package]
name = "stabilitypool"
version = "0.1.0"
edition = "2021"
publish = false

[dependencies]
bitcoin = "*"
secp256k1 = { version = "*", features = ["rand"] }
serde = { version = "*", features = ["derive"] }
serde_json = "*"
clap = { version = "*", features = ["derive"] }
reqwest = { version = "*", default-features = false, features = ["blocking", "json", "rustls-tls"] }
