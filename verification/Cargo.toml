[package]
name = "yara2"
version = "0.1.0"
edition = "2021"
publish = false

[dependencies]
err-derive = "=0.3.1"
lazy_static = "=1.5.1"
serde = { version = "=1.0.229", features = ["derive"] }
