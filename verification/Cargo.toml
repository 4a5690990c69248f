[package]
name = "yield_vault"
version = "0.1.0"
edition = "2021"
publish = false

[dependencies]
cosmwasm-std = "1"
cw2 = "1"
cw20 = "1"
cw-storage-plus = "1"
ic-cdk = "*"
ic-cdk-macros = "*"
candid = "*"
serde = { version = "1", features = ["derive"] }
