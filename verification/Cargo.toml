[package]
name = "mdbook_bom"
version = "0.1.0"
edition = "2021"
publish = false

[dependencies]
regex = "1"
serde = { version = "1", features = ["derive"] }
serde_json = "1"
serde_yaml = "0.9"
mdbook = { version = "0.4", default-features = false }
clap = "4"
csv = "1"
calamine = "*"
rust_xlsxwriter = "*"
