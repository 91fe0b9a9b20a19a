[package]
name = "wechat_bot_core"
version = "0.1.0"
edition = "2021"
publish = false

[dependencies]
serde_json = "*"
rand = "*"
chrono = "*"
nipper = "*"
serde = { version = "*", features = ["derive"] }
clap = { version = "*", features = ["derive"] }
log = "*"
log4rs = "*"
reqwest = { version = "*", default-features = false, features = ["rustls-tls"] }
tokio = { version = "*", features = ["rt-multi-thread", "macros"] }
