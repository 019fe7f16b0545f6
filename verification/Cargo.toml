[package]
name = "pf_sandbox"
version = "0.1.0"
edition = "2021"
publish = false

[dependencies]
getopts = "=0.2.24"
serde = { version = "=1.0.229", features = ["derive"] }
serde_json = "=1.0.154"
chrono = "=0.4.45"
rand = "=0.8.8"
rust-crypto = "0.2.36"
bincode = "1"
