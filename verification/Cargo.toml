[package]
name = "rtkill"
version = "0.1.0"
edition = "2021"
publish = false

[dependencies]
anyhow = "*"
chrono = "*"
crossterm = "0.25"
fs_extra = "*"
rand = "*"
toml = "*"
tui = "0.19"
