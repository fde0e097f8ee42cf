[package]
name = "volt"
version = "0.1.0"
edition = "2021"
publish = false

[dependencies]
regex = "=1.13.1"
serde_json = "=1.0.154"
serde = { version = "=1.0.229", features = ["derive"] }
toml = "=0.8.23"
directories = "=5.0.1"
dotenvy = "=0.15.7"
ignore = "=0.4.34"
anyhow = "=1.0.104"
log = "=0.4.35"
uuid = { version = "=1.29.0", features = ["v4"] }
getrandom = "=0.4.3"
tokio = { version = "=1.54.1", features = ["full"] }
reqwest = { version = "=0.12.28", default-features = false, features = ["rustls-tls"] }
ratatui = "=0.29.0"
crossterm = "=0.28.1"
clap = { version = "=4.6.7", features = ["derive"] }
inquire = "=0.7.5"
once_cell = "=1.21.4"
syntect = { version = "=5.3.0", default-features = false, features = ["default-syntaxes", "default-themes", "regex-fancy", "parsing", "html"] }
arboard = "=3.7.0"
