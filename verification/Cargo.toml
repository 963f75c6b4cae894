[package]
name = "derive_survey"
version = "0.1.0"
edition = "2021"
publish = false

[dependencies]
anyhow = "1"
thiserror = "2"
requestty = "0.5"
ratatui = "0.29"
crossterm = "0.28"
