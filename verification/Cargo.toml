[package]
name = "siori"
version = "0.1.0"
edition = "2021"
publish = false

[dependencies]
anyhow = "*"
crossterm = "*"
directories = "*"
git2 = { version = "*", default-features = false }
ratatui = "*"
serde = { version = "*", features = ["derive"] }
toml = "*"
unicode-width = "*"
