[package]
name = "raven"
version = "0.1.0"
edition = "2021"
publish = false

[dependencies]
chrono = "0.4"
fancy-regex = "*"
scraper = "*"
cron = "*"
reqwest = { version = "0.12", default-features = false, features = ["json", "rustls-tls"] }
tokio = { version = "1", features = ["full"] }
futures = "0.3"
image = { version = "*", default-features = false, features = ["png", "jpeg", "gif", "webp", "bmp"] }
serde = { version = "1", features = ["derive"] }
serde_json = "1"
clap = { version = "4", features = ["derive"] }
clap_complete = "4"
colored = "*"
tracing = "0.1"
tracing-subscriber = { version = "0.3", features = ["env-filter"] }
