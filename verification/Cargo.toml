[package]
name = "linkcheck"
version = "0.1.0"
edition = "2021"
publish = false

[dependencies]
scraper = "*"
http = "=1.5.0"
reqwest = { version = "=0.13.5", default-features = false }
