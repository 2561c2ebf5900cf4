[package]
name = "telegram_group_scraper"
version = "0.1.0"
edition = "2021"
publish = false

[dependencies]
glass_pumpkin = "=2.0.0-rc0"
grammers-client = "=0.10.0"
grammers-session = "=0.10.0"
tokio = { version = "=1.53.2", features = ["full"] }
