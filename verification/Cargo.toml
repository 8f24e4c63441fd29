[package]
name = "just_etf"
version = "0.1.0"
edition = "2021"
publish = false

[dependencies]
async-trait = "0.1"
chrono = "0.4"
futures = "0.3"
log = "0.4"
reqwest = { version = "0.12", default-features = false, features = ["cookies", "json", "rustls-tls"] }
rust_decimal = "1"
scraper = "0.23"
serde = { version = "1", features = ["derive"] }
serde_json = "1"
tokio = { version = "1", features = ["time"] }
