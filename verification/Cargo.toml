[package]
name = "ck_lightning_client"
version = "0.1.0"
edition = "2021"
publish = false

[dependencies]
lightning-invoice = "0.33"
bitcoin = { version = "0.32", features = ["secp-recovery"] }
candid = "0.10"
hex = "0.4"
anyhow = "1"
clap = { version = "4", features = ["derive"] }
env_logger = "0.11"
log = "0.4"
tokio = { version = "1", features = ["macros", "rt-multi-thread"] }
ic-agent = { version = "0.39", default-features = false }
