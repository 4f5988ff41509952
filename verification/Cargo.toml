[package]
name = "rust_repos"
version = "0.1.0"
edition = "2021"
publish = false

[dependencies]
ansi_term = "0.12"
anyhow = "1"
async-trait = "0.1"
futures = "0.3"
governor = "=0.6.3"
http = "=0.2.12"
hyper = "=0.14.32"
indicatif = "0.18"
octocrab = "=0.31.2"
serde = { version = "1", features = ["derive"] }
serde_json = "=1.0.154"
snafu = "=0.7.5"
tokio = { version = "1", features = ["macros", "rt"] }
tracing = "0.1"
tracing-indicatif = "=0.3.14"
tracing-subscriber = { version = "0.3", features = ["env-filter"] }
url = { version = "=2.5.8", features = ["serde"] }
