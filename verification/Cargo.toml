[package]
name = "monotone"
version = "0.1.0"
edition = "2021"
publish = false

[dependencies]
rand = "=0.4.6"
serde = "=1.0.229"
serde_derive = "=1.0.229"
serde_json = "=1.0.154"
rusoto = "0.24"
clap = "=2.34.0"
env_logger = "=0.4.3"
log = "=0.3.9"
error-chain = "=0.10.0"
