[package]
name = "dns_json"
version = "0.1.0"
edition = "2021"
publish = false

[dependencies]
hickory-proto = "0.24"
hickory-resolver = "0.24"
tokio = { version = "1", default-features = false, features = ["rt"] }
