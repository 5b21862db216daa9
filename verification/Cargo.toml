[package]
name = "term_todo"
version = "0.1.0"
edition = "2021"
publish = false

[dependencies]
crossterm = "*"
ratatui = "*"
tui-input = "*"

[dev-dependencies]
serde_json = "*"
