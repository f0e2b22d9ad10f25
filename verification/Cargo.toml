[package]
name = "voices3r"
version = "0.1.0"
edition = "2021"
publish = false

[dependencies]
anyhow = "1"
es8311 = "*"
esp-idf-svc = "0.51"
log = "0.4"
