[package]
name = "web_crawler"
version = "0.1.0"
edition = "2021"
publish = false

[dependencies]
url = "*"
scraper = "*"
reqwest = "*"
tokio = { version = "*", features = ["macros", "rt-multi-thread"] }
env_logger = "*"
log = "*"
serde = { version = "*", features = ["derive"] }
serde_json = "*"
