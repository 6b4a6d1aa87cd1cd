[package]
name = "y2kexplorer"
version = "0.1.0"
edition = "2021"
publish = false

[dependencies]
urlencoding = "2"
serde_json = "1"
chrono = { version = "0.4", default-features = false, features = ["std"] }
serde = { version = "1", features = ["derive"] }
toml = "0.8"
anyhow = "1"
ratatui = "*"
crossterm = "*"
rdkafka = "0.38"
tokio = { version = "1", features = ["rt"] }
ureq = "2"
directories = "*"
arboard = { version = "3", default-features = false }
clap = { version = "4", features = ["derive"] }
tracing-subscriber = { version = "0.3", features = ["env-filter"] }
