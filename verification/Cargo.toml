[package]
name = "podcast_recos"
version = "0.1.0"
edition = "2021"
publish = false

[dependencies]
axum = "0.7"
htmlescape = "0.3"
quick-xml = "0.37"
reqwest = { version = "0.12", default-features = false, features = ["rustls-tls"] }
serde = { version = "1", features = ["derive"] }
serde_json = "1"
tokio = { version = "1", features = ["macros", "rt-multi-thread", "net"] }
