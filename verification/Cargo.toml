[package]
name = "escape_tabs"
version = "0.1.0"
edition = "2021"
publish = false

[dependencies]
anyhow = "=1.0.104"
awedio = "=0.8.0"
crossterm = "=0.29.0"
notify = "=8.2.0"
rand = { version = "=0.8.8", features = ["small_rng"] }
ratatui = "=0.30.2"
