[package]
name = "serp404"
version = "0.1.0"
edition = "2021"
publish = false

[dependencies]
csv = "1.3"
regex = "1"
quick-xml = "0.37"
url = "2"
serde = { version = "1", features = ["derive"] }
serde_json = "1"
reqwest = { version = "0.12", default-features = false, features = ["json", "rustls-tls"] }
tokio = { version = "1", features = ["rt", "rt-multi-thread", "time", "macros"] }
rusqlite = "0.32"
uuid = { version = "1", features = ["v4"] }
