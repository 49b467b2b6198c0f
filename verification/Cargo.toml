[package]
name = "git_bot_feedback"
version = "0.1.0"
edition = "2021"
publish = false

[dependencies]
chrono = { version = "0.4", default-features = false, features = ["std", "clock"] }
fast-glob = "*"
log = "0.4"
reqwest = { version = "*", default-features = false }
serde = { version = "1", features = ["derive"] }
serde_json = "1"
thiserror = "*"
tokio = { version = "1", features = ["fs", "time", "rt", "macros"] }
url = "2"

[dev-dependencies]
regex = "1"
