[package]
name = "minitcp"
version = "1.1.0"
edition = "2021"
publish = false

[dependencies]
toml = "0.8"
crossterm = "0.28"
ratatui = "0.29"
libc = "0.2"
ureq = "2"
