[package]
name = "citeseer"
version = "0.1.0"
edition = "2021"
publish = false

[dependencies]
unicode-width = "0.1"
ratatui = "0.26"
crossterm = "0.27"
cli-clipboard = "0.4"
dirs = "5"
