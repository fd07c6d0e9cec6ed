[package]
name = "rsquid"
version = "0.1.0"
edition = "2021"
publish = false

[dependencies]
anyhow = "*"
bigdecimal = "*"
chrono = "*"
crossterm = "*"
dirs = "*"
ratatui = "*"
serde = { version = "*", features = ["derive"] }
serde_json = "*"
sqlx = { version = "*", default-features = false, features = ["runtime-tokio", "postgres", "mysql", "sqlite", "chrono", "uuid", "json", "bigdecimal"] }
tokio = { version = "*", features = ["rt-multi-thread", "macros"] }
