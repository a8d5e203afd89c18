[package]
name = "picklist"
version = "0.1.0"
edition = "2021"
publish = false

[dependencies]
fuzzy-matcher = "0.3"
druid = { version = "0.8", features = ["im"] }
anyhow = "1"
tracing = "0.1"
