[package]
name = "florestad"
version = "0.9.0"
edition = "2021"
publish = false

[dependencies]
bitcoin = "0.32"
serde = { version = "1", features = ["derive"] }
serde_json = "1"
toml = "0.8"
tracing = "0.1"
tracing-subscriber = "0.3"
ureq = { version = "3", default-features = false }
