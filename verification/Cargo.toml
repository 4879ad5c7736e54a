[package]
name = "sesh"
version = "0.1.0"
edition = "2021"
publish = false

[dependencies]
anyhow = "*"
async-trait = "*"
clap = { version = "*", features = ["derive"] }
clap_complete = "*"
dirs = "*"
git2 = "*"
hex = "*"
serde = { version = "*", features = ["derive"] }
sha2 = "*"
sqlx = { version = "*", features = ["sqlite", "runtime-tokio"] }
thiserror = "*"
tokio = { version = "*", features = ["rt-multi-thread", "macros"] }
toml = "*"
tracing = "*"
tracing-appender = "*"
tracing-subscriber = { version = "*", features = ["env-filter"] }
