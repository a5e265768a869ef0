[package]
name = "matrix-ping-bot"
version = "0.1.0"
edition = "2021"
publish = false

[dependencies]
regex = "=1.13.1"
ruma = "=0.17.2"
mime = "=0.3.17"
rand = "=0.8.8"
serde = { version = "=1.0.229", features = ["derive"] }
serde_yaml = "=0.9.34"
serde_json = "=1.0.154"
anyhow = "=1.0.104"
async-trait = "=0.1.92"
tokio = { version = "=1.54.1", features = ["rt-multi-thread", "macros", "sync", "fs", "process", "io-util"] }
tracing = "=0.1.44"
tracing-subscriber = { version = "=0.3.23", features = ["env-filter", "json"] }
clap = { version = "=4.6.7", features = ["derive", "env"] }
dotenvy = "=0.15.7"
futures-util = "=0.3.34"
time = { version = "=0.3.55", features = ["formatting"] }
rpassword = "=7.5.4"
reqwest = { version = "0.12", default-features = false, features = ["json"] }
