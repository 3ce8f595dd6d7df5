[package]
name = "awesome-generator"
version = "0.1.0"
edition = "2021"
publish = false

[dependencies]
anyhow = "=1.0.104"
chrono = { version = "=0.4.45", features = ["serde"] }
clap = { version = "=4.6.7", features = ["derive"] }
futures = "=0.3.34"
gitlab = "=0.1905.0"
handlebars = "=6.4.4"
octocrab = "=0.40.0"
pin-project = "=1.1.13"
prettytable-rs = "=0.10.0"
reqwest = { version = "=0.12.28", default-features = false, features = ["json", "rustls-tls"] }
serde = { version = "=1.0.229", features = ["derive"] }
serde_json = "=1.0.154"
serde_with = { version = "=3.24.0", features = ["chrono_0_4"] }
tokio = { version = "=1.54.1", features = ["macros", "rt-multi-thread"] }
toml = "=0.8.23"
url = "=2.5.8"
