[package]
name = "icon_scraper"
version = "0.1.0"
edition = "2021"
publish = false

[dependencies]
url = "2"
mime = "0.3"
image = { version = "*", default-features = false, features = ["png", "jpeg", "gif", "ico"] }
scraper = "*"
reqwest = { version = "*", default-features = false }
futures = "0.3"
