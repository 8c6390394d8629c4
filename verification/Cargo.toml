[package]
name = "salsa_reader"
version = "0.1.0"
edition = "2021"
publish = false

[dependencies]
anyhow = "=1.0.104"
crossterm = "=0.29.0"
fern = "=0.7.1"
log = "=0.4.35"
rat-salsa = "=4.0.3"
rat-theme4 = "=4.5.3"
rat-widget = { version = "=3.2.1", features = ["cli-clipboard"] }
ratatui = "=0.30.2"
