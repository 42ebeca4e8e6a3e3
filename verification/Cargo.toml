[package]
name = "sframe_session"
version = "0.1.0"
edition = "2021"
publish = false

[dependencies]
sframe = "*"
hkdf = "*"
sha2 = "*"
base64 = "0.21"
openmls = "*"
openmls_rust_crypto = "*"
openmls_basic_credential = "*"

[dev-dependencies]
hex = "*"
