[package]
name = "wolfhook"
version = "0.1.0"
edition = "2021"
publish = false

[dependencies]
serde_json = "*"
serde = { version = "*", features = ["derive"] }
chrono = "*"
cron = "*"
url = "*"
clap = { version = "*", features = ["derive"] }
tokio = { version = "*", features = ["rt", "macros", "time"] }
reqwest = { version = "*", default-features = false, features = ["json"] }
webhook = "*"
