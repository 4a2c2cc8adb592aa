[package]
name = "rumia"
version = "0.1.0"
edition = "2021"
publish = false

[dependencies]
uuid = { version = "*", features = ["v4"] }
url = "*"
rocket = "*"
tokio = { version = "*", features = ["fs", "sync", "io-util", "macros", "rt-multi-thread"] }
reqwest = { version = "*", default-features = false }
clap = { version = "*", features = ["derive", "env"] }
dotenv = "*"
