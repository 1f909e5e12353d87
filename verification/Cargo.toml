[package]
name = "web_crawler"
version = "0.1.0"
edition = "2021"
publish = false

[dependencies]
victoria-dom = "*"
csv = "1"
rayon = "1"
clap = "2"
reqwest = { version = "0.12", default-features = false, features = ["blocking", "rustls-tls"] }
