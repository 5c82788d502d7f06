[package]
name = "gba_agentic_runner"
version = "0.1.0"
edition = "2021"
publish = false

[dependencies]
serde = { version = "1", features = ["derive"] }
serde_json = "1"
zip = { version = "*", default-features = false, features = ["deflate"] }
walkdir = "2"
tempfile = "3"
tokio = { version = "1", features = ["net", "rt-multi-thread"] }
axum = "*"
reqwest = { version = "*", default-features = false, features = ["blocking", "json"] }
