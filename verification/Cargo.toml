[package]
name = "polldaddy_spam"
version = "0.1.0"
edition = "2021"
publish = false

[dependencies]
reqwest = { version = "*", default-features = false }
url = "*"
tokio = { version = "*", features = ["rt-multi-thread", "time", "sync", "macros", "signal"] }
