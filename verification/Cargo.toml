[package]
name = "tls_codec"
version = "0.1.0"
edition = "2021"
publish = false

[dependencies]
zeroize = "1"
serde = { version = "1", features = ["derive"] }
syn = { version = "1", features = ["full"] }
quote = "1"
proc-macro2 = "1"
