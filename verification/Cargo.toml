[package]
name = "blepo"
version = "0.1.0"
edition = "2021"
publish = false

[dependencies]
chrono = "0.4"
serde = { version = "1", features = ["derive"] }
serde_json = "1"
quick-xml = { version = "*", features = ["serialize"] }
toml = "*"
directories = "*"
reqwest = { version = "0.12", default-features = false, features = ["blocking", "rustls-tls"] }
