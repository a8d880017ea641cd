[package]
name = "respondami"
version = "0.1.0"
edition = "2021"
publish = false

[dependencies]
unicode-width = "*"
serde = { version = "1", features = ["derive"] }
serde_json = "1"
chrono = "0.4"
dirs = "*"
fastrand = "2"
anyhow = "1"
pulldown-cmark = { version = "*", default-features = false }
crossterm = "*"
tokio = { version = "1", features = ["rt", "macros", "process", "time", "io-util"] }
