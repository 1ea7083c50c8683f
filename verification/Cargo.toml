[package]
name = "bcdl"
version = "0.1.0"
edition = "2021"
publish = false

[dependencies]
anyhow = "1"
bytes = "1"
chrono = "0.4"
clap = "2"
colored = "2"
fstream = "*"
futures-util = "0.3"
id3 = "1"
linya = "*"
reqwest = { version = "0.11", features = ["stream"] }
scraper = "*"
serde_json = "1"
size-display = "*"
tokio = { version = "1", features = ["full"] }
