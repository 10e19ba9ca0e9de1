[package]
name = "rsip-dns"
version = "0.1.0"
edition = "2021"
publish = false

[dependencies]
async-trait = "=0.1.92"
hickory-proto = "=0.25.2"
hickory-resolver = "=0.25.2"
rand = "=0.9.5"
rsip = { version = "=0.4.0", features = ["test-utils"] }
testing-utils = "0.1.1"
tokio = { version = "=1.54.1", features = ["net", "time"] }
