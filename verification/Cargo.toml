[package]
name = "krc20"
version = "0.1.0"
edition = "2021"
publish = false

[dependencies]
kaspa-txscript = "*"
kaspa-txscript-errors = "*"
kaspa-consensus-core = "*"
kaspa-addresses = "*"
kaspa-rpc-core = "*"
serde = { version = "*", features = ["derive"] }
serde_json = "*"
thiserror = "*"
workflow-log = "*"
