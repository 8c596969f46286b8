[package]
name = "countercow"
version = "0.1.0"
edition = "2021"
publish = false

[dependencies]
clap = { version = "4", features = ["derive"] }
color-eyre = "0.6"
crossbeam-channel = "0.5"
crossterm = "*"
libc = "0.2"
ratatui = "*"
sysinfo = "0.38"
