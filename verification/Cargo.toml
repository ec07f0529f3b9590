[package]
name = "finchers"
version = "0.1.0"
edition = "2021"
publish = false

[dependencies]
mime = "0.3"
serde_json = "1"
serde_qs = "*"
http = "*"
