[package]
name = "keyset_config"
version = "0.1.0"
edition = "2021"
publish = false

[dependencies]
serde_json = "1"
aws-config = { version = "1", default-features = false }
aws-sdk-secretsmanager = { version = "1", default-features = false }
