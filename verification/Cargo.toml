[package]
name = "stereocord"
version = "0.1.0"
edition = "2021"
publish = false

[dependencies]
ratatui = "0.29"
