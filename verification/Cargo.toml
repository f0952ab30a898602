[package]
name = "channel_copier"
version = "0.1.0"
edition = "2021"
publish = false

[dependencies]
anyhow = "1"
clap = { version = "4", features = ["derive", "env"] }
dotenvy = "0.15"
futures = "0.3"
grammers-client = "0.7"
grammers-mtsender = "0.7"
grammers-session = "0.7"
grammers-tl-types = "0.7"
indicatif = "0.17"
inquire = "0.7"
rand = "0.9"
regex = "1"
scc = "2"
sqlx = { version = "0.8", features = ["runtime-tokio", "sqlite"] }
time = { version = "0.3", features = ["formatting", "parsing", "local-offset", "macros"] }
tokio = { version = "1", features = ["full"] }
tracing = "0.1"
tracing-subscriber = { version = "0.3", features = ["env-filter", "time", "local-time"] }
