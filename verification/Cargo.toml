[package]
name = "infera"
version = "0.1.0"
edition = "2021"
publish = false

[dependencies]
filetime = "0.2"
hex = "0.4"
reqwest = { version = "0.12", default-features = false, features = ["blocking", "rustls-tls"] }
serde_json = "1"
sha2 = "0.10"
