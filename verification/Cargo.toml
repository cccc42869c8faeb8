[package]
name = "tnt_scraper_lib"
version = "0.1.0"
edition = "2021"
publish = false

[dependencies]
scraper = "0.29"
hyper = "0.11"
reqwest = { version = "0.9", default-features = false }
clap = "2"
