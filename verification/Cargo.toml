[package]
name = "synexai"
version = "0.1.0"
edition = "2021"
publish = false

[dependencies]
ic-cdk = "=0.19.0"
ic-ledger-types = "=0.16.0"
ic-llm = "=2.0.0"
serde_json = "=1.0.154"
candid = "=0.10.39"
