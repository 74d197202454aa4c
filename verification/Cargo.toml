[package]
name = "podcast_proxy"
version = "0.1.0"
edition = "2021"
publish = false

[dependencies]
urlencoding = "*"
rss = "*"
serde = { version = "*", features = ["derive"] }
serde_json = "*"
thiserror = "*"
anyhow = "*"
log = "*"
dotenv = "*"
rocket = "*"
tempfile = "*"
