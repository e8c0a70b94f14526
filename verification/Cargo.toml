[package]
name = "gping"
version = "0.1.0"
edition = "2021"
publish = false

[dependencies]
anyhow = "1"
crossterm = "*"
dns-lookup = "*"
histogram = "0.6"
pinger = "*"
structopt = "0.3"
tui = "*"
