[package]
name = "porthole"
version = "0.1.0"
edition = "2021"
publish = false

[dependencies]
x509-parser = { version = "*", features = ["verify"] }
webpki-roots = "*"
time = "*"
thiserror = "*"
anyhow = "*"
clap = { version = "*", features = ["derive"] }
crossterm = "*"
ratatui = "*"
