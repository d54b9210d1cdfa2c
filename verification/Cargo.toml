[package]
name = "pin_cushion"
version = "0.1.0"
edition = "2021"
publish = false

[dependencies]
dirs = "3"
regex = "1"
reqwest = { version = "0.10", default-features = false, features = ["rustls-tls"] }
rss = "1"
serde = { version = "1", features = ["derive"] }
tokio = { version = "0.2", features = ["full"] }
toml = "0.5"
