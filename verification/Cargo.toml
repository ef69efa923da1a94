[package]
name = "fetcher"
version = "0.1.0"
edition = "2021"
publish = false

[dependencies]
anyhow = "1"
clap = { version = "4", features = ["derive"] }
futures = "0.3"
indicatif = "0.17"
reqwest = { version = "0.12", features = ["stream"] }
reqwest-middleware = "0.4"
reqwest-retry = "0.7"
reqwest-tracing = "0.5"
scraper = "0.23"
tokio = { version = "1", features = ["full"] }
unicode-width = "0.2"
uuid = { version = "1", features = ["v4"] }
