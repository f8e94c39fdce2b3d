[package]
name = "swap_ledger"
version = "0.1.0"
edition = "2021"
publish = false

[dependencies]
candid = "*"
ic-cdk = "*"
ic-stable-structures = "*"
serde = { version = "1", features = ["derive"] }

[dev-dependencies]
regex = "1"
