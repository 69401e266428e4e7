[package]
name = "ifit_client"
version = "0.1.0"
edition = "2021"
publish = false

[dependencies]
scraper = "*"
reqwest = { version = "*", default-features = false, features = ["cookies", "json"] }
serde = { version = "*", features = ["derive"] }
thiserror = "*"
anyhow = "*"
