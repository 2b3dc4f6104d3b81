[package]
name = "native_bridge"
version = "0.1.0"
edition = "2021"
publish = false

[dependencies]
base64 = "0.21"
serde_json = "1"
reqwest = { version = "0.11", default-features = false, features = ["blocking", "rustls-tls"] }
