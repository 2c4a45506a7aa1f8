[package]
name = "ytpodcast"
version = "0.1.0"
edition = "2021"
publish = false

[dependencies]
chrono = "*"
regex = "*"
serde_json = "*"
serde = { version = "*", features = ["derive"] }
serde_yaml = "*"
filetime = "*"
tokio = { version = "*", features = ["rt-multi-thread", "macros", "process", "fs", "time"] }
sqlx = { version = "*", default-features = false, features = ["runtime-tokio", "sqlite", "chrono"] }
