[package]
name = "review_to_md"
version = "0.1.0"
edition = "2021"
publish = false

[dependencies]
anyhow = "1"
argh = "0.1"
axum = "0.8"
open = "5"
pathsearch = "0.2"
regex = "1"
serde = { version = "1", features = ["derive"] }
serde_json = "1"
syntect = { version = "5", default-features = false, features = ["default-fancy"] }
tempfile = "3"
tokio = { version = "1", features = ["rt-multi-thread", "macros", "net", "signal", "sync"] }
uuid = { version = "1", features = ["v4"] }
