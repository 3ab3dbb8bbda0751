[package]
name = "rsapss_jws"
version = "0.1.0"
edition = "2021"
publish = false

[dependencies]
base64 = "0.12"
openssl = "0.10"
serde_json = "1"
