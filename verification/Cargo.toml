[package]
name = "estate_vault"
version = "0.1.0"
edition = "2021"
publish = false

[dependencies]
bitcoin = "=0.31.3"
candid = "=0.10.37"
ic-cdk = "=0.20.3"
ic-cdk-management-canister = "=0.1.1"
ic-vetkeys = "=0.9.0"
rand_chacha = "=0.3.1"
serde = "=1.0.229"
sha2 = "=0.10.9"
