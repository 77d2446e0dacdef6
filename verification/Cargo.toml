[package]
name = "speedtype"
version = "0.1.0"
edition = "2021"
publish = false

[dependencies]
rand = "*"
ratatui = "*"
tui-menu = "*"
better-panic = "*"
