[package]
name = "russee"
version = "0.1.0"
edition = "2021"
publish = false

[dependencies]
anyhow = "1"
crossterm = "0.28"
ignore = "0.4"
nucleo = "0.5"
ratatui = "0.29"
regex = "1"
serde = { version = "1", features = ["derive"] }
syntect = "5"
toml = "0.8"
two-face = "0.4"
