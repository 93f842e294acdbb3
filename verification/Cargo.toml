[package]
name = "vendor_scraper"
version = "0.1.0"
edition = "2021"
publish = false

[dependencies]
fantoccini = "*"
rust_decimal = "1"
serde = { version = "1", features = ["derive"] }
serde_json = "1"
