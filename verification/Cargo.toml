[package]
name = "calc_engine"
version = "0.1.0"
edition = "2021"
publish = false

[dependencies]
ratatui = "=0.28.1"
tui-textarea = "=0.6.1"
