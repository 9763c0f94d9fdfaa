[package]
name = "url_cleaner_site"
version = "0.1.0"
edition = "2021"
publish = false

[dependencies]
url-cleaner-engine = { version = "=0.11.0", default-features = false }
serde = { version = "=1.0.229", features = ["derive"] }
serde_json = "=1.0.151"
url = "=2.5.8"
thiserror = "=2.0.21"
clap = { version = "=4.6.7", features = ["derive"] }
