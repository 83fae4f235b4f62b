[package]
name = "foot_info"
version = "0.1.0"
edition = "2021"
publish = false

[dependencies]
async-trait = "=0.1.92"
chrono = "=0.4.45"
chrono-tz = "=0.10.4"
crossterm = "=0.29.0"
directories = "=6.0.0"
ratatui = "=0.30.2"
reqwest = "=0.13.5"
scraper = "=0.27.0"
serde = { version = "=1.0.229", features = ["derive"] }
serde_json = "=1.0.151"
tokio = { version = "=1.53.2", features = ["macros", "rt-multi-thread", "sync", "time"] }
