[package]
name = "newgrounds_audio_downloader"
version = "0.1.0"
edition = "2021"
publish = false

[dependencies]
anyhow = "1"
backoff = "0.4"
ego-tree = "*"
httpdate = "1"
regex = "1"
reqwest = { version = "0.12", default-features = false, features = ["blocking", "rustls-tls"] }
scraper = "*"
seahash = "4"
serde = { version = "1", features = ["derive"] }
serde_json = "1"
