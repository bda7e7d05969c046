[package]
name = "htcrawler"
version = "0.1.0"
edition = "2021"
publish = false

[dependencies]
scraper = "=0.27.0"
tokio = { version = "=1.53.2", features = ["rt-multi-thread", "macros"] }
reqwest = { version = "=0.13.5", default-features = false }
sqlx = { version = "=0.9.0", default-features = false, features = ["runtime-tokio", "postgres", "chrono", "json", "derive"] }
serde = { version = "=1.0.229", features = ["derive"] }
serde_json = "=1.0.151"
clap = { version = "=4.6.7", features = ["derive"] }
chrono = "=0.4.45"
dotenv = "=0.15.0"
