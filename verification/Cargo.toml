[package]
name = "vouch_js"
version = "0.1.0"
edition = "2021"
publish = false

[dependencies]
anyhow = "1"
handlebars = "*"
reqwest = { version = "*", features = ["blocking"] }
serde_json = { version = "1", features = ["preserve_order"] }
tempdir = "0.3"
url = "2"
vouch-lib = "*"
