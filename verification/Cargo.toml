[package]
name = "fontfor"
version = "0.1.0"
edition = "2021"
publish = false

[dependencies]
range-set-blaze = "*"
httparse = "*"
ab_glyph = "*"
clap = { version = "*", features = ["derive"] }
crossterm = "*"
ratatui = "*"
tui-input = "*"
fontdb = "*"
ttf-parser = "*"
