[package]
name = "guestbook"
version = "0.3.1"
edition = "2021"
publish = false

[dependencies]
html-escape = "=0.2.15"
md-5 = "=0.10.6"
uuid = { version = "=1.29.1", features = ["v4"] }
chrono = { version = "=0.4.45", features = ["serde"] }
serde = { version = "=1.0.229", features = ["derive"] }
toml = "=0.8.23"
clap = { version = "=4.6.7", features = ["derive"] }
tokio = { version = "=1.54.1", features = ["full"] }
axum = "=0.7.9"
sqlx = { version = "=0.7.4", features = ["runtime-tokio", "any", "sqlite", "postgres", "mysql"] }
tracing = "=0.1.44"
tracing-subscriber = "=0.3.23"
async-trait = "=0.1.92"
reqwest = "=0.11.27"
teloxide = { version = "=0.12.2", default-features = false, features = ["rustls"] }
mail-send = "=0.4.9"
tokio-rustls = "=0.26.6"
takecell = "=0.1.1"
