[package]
name = "camera_watch"
version = "0.1.0"
edition = "2021"
publish = false

[dependencies]
anyhow = "=1.0.104"
bytes = "=1.12.1"
chrono = "=0.4.45"
dotenvy = "=0.15.7"
log = "=0.4.34"
pretty_env_logger = "=0.5.0"
regex = "=1.13.1"
reqwest = "=0.11.27"
scraper = "=0.20.0"
serde = { version = "=1.0.229", features = ["derive"] }
serde_json = "=1.0.154"
takecell = "=0.1.1"
teloxide = { version = "=0.13.0", features = ["macros"] }
tempfile = "=3.27.0"
tokio = { version = "=1.54.1", features = ["rt-multi-thread", "macros", "time", "sync"] }
