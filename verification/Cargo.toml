[package]
name = "manbo"
version = "0.1.0"
edition = "2021"
publish = false

[dependencies]
jiff = "*"
clap = { version = "*", features = ["derive"] }
thiserror = "*"
dotenvy = "*"
serde = { version = "*", features = ["derive"] }
serde_json = "*"
toml_edit = "*"
tracing = "*"
tracing-subscriber = { version = "*", features = ["env-filter"] }
tracing-appender = "*"
