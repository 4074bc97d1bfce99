[package]
name = "mensa"
version = "0.1.0"
edition = "2021"
publish = false

[dependencies]
cacache = "=13.1.0"
directories-next = "=2.0.0"
reqwest = { version = "=0.12.28", default-features = false, features = ["blocking", "rustls-tls"] }
serde = { version = "=1.0.229", features = ["derive"] }
serde_json = "=1.0.151"

[dev-dependencies]
temp-dir = "=0.2.0"
