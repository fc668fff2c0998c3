[package]
name = "vessels"
version = "0.1.0"
edition = "2021"
publish = false

[dependencies]
futures = "0.3"
void = "1"
failure = "0.1"
pin-utils = "0.1"
serde = "1"
serde_cbor = "0.11"
syn = { version = "1", features = ["full", "extra-traits"] }
quote = "1"
proc-macro2 = "1"
