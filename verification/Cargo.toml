[package]
name = "ndjson_format"
version = "0.1.0"
edition = "2021"
publish = false

[dependencies]
arrow = { version = "*", default-features = false, features = ["json"] }
serde_json = "*"
