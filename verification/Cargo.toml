[package]
name = "lncrawl"
version = "0.1.0"
edition = "2021"
publish = false

[dependencies]
anyhow = "1"
async-trait = "0.1"
clap = { version = "4", features = ["derive"] }
colored = "*"
dialoguer = "0.11"
futures = "0.3"
indicatif = "0.17"
regex = "1"
reqwest = { version = "0.12", default-features = false, features = ["rustls-tls", "cookies", "gzip", "json"] }
scraper = "*"
serde = { version = "1", features = ["derive"] }
serde_json = "1"
tokio = { version = "1", features = ["full"] }
url = "2"
zip = { version = "*", default-features = false, features = ["deflate"] }
