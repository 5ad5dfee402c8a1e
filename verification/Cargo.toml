[package]
name = "sn"
version = "0.1.0"
edition = "2021"
publish = false

[dependencies]
crossterm = "*"
pulldown-cmark = "*"
ratatui = "*"
