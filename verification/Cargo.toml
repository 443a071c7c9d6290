[package]
name = "afg"
version = "0.1.0"
edition = "2021"
publish = false

[dependencies]
petgraph = "*"
clap = { version = "4", features = ["derive"] }
crossterm = "0.28"
ratatui = "0.29"
log = "0.4"
colog = "*"
color-eyre = "0.6"
thiserror = "*"
