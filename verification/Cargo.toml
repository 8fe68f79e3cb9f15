[package]
name = "smotrim_rss_proxy"
version = "0.1.0"
edition = "2021"
publish = false

[dependencies]
chrono = "0.4"
chrono-tz = "*"
actix-web = "4"
clap = { version = "4", features = ["derive"] }
reqwest = { version = "0.12", default-features = false }
scraper = "*"
serde_json = "1"
tokio = { version = "1", features = ["sync", "rt-multi-thread", "macros"] }
tokio-rusqlite = { version = "*", features = ["bundled"] }
