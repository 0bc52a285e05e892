[package]
name = "mb_tui"
version = "0.1.0"
edition = "2021"
publish = false

[dependencies]
ratatui = "=0.29.0"
crossterm = "=0.28.1"
unicode-width = "=0.2.0"
pulldown-cmark = { version = "0.11", default-features = false }
