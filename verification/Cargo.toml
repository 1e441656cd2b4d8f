[package]
name = "bytesrepr"
version = "0.1.0"
edition = "2021"
publish = false

[dependencies]
serde = { version = "1", features = ["derive"] }
datasize = "0.2"
derive_more = "0.99"
