[package]
name = "sniffer_parser"
version = "0.1.0"
edition = "2021"
publish = false

[dependencies]
flate2 = "*"
pnet = "*"
serde = { version = "*", features = ["derive"] }
