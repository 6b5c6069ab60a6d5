[package]
name = "racoes_bot"
version = "0.1.0"
edition = "2021"
publish = false

[dependencies]
dotenvy = "=0.15.7"
dptree = "=0.3.0"
lazy_static = "=1.5.1"
log = "=0.4.34"
pretty_env_logger = "=0.5.0"
sea-orm = { version = "=0.12.15", features = ["sqlx-postgres", "runtime-tokio-rustls", "macros"] }
takecell = "=0.1.1"
teloxide = { version = "=0.12.2", features = ["macros"] }
tokio = { version = "=1.39.3", features = ["macros", "rt-multi-thread"] }
tzf-rs = "=0.4.13"
