[package]
name = "home_dns"
version = "0.1.0"
edition = "2021"
publish = false

[dependencies]
lazy_static = "1.4"
reqwest = { version = "0.11", features = ["blocking", "json"] }
rusqlite = { version = "0.31", features = ["bundled"] }
serde = { version = "1", features = ["derive"] }
serde_json = "1"
