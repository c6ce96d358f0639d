[package]
name = "rcrawler"
version = "0.1.0"
edition = "2021"
publish = false

[dependencies]
regex = "1"
scraper = "*"
url = "2"
robotstxt = "*"
chrono = "0.4"
rand = "0.8"
dirs = "*"
html2md = "*"
governor = "*"
reqwest = { version = "*", default-features = false, features = ["gzip"] }
tokio = { version = "1", features = ["rt-multi-thread", "macros", "time", "sync"] }
clap = { version = "4", features = ["derive"] }
serde = { version = "1", features = ["derive"] }
serde_json = "1"
tracing = "*"
tracing-subscriber = "*"
anyhow = "1"
parking_lot = "*"
