[package]
name = "athena"
version = "0.1.0"
edition = "2021"
publish = false

[dependencies]
semver = "1"

[dev-dependencies]
serde_json = "1"
