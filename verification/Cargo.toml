[package]
name = "opds"
version = "0.1.0"
edition = "2021"
publish = false

[dependencies]
langtag = "*"
url = "2"
urn = "*"
serde_json = { version = "1", features = ["preserve_order"] }
clap = { version = "4", features = ["derive"] }
anyhow = "1"
