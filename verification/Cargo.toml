[package]
name = "amortscan"
version = "0.1.0"
edition = "2021"
publish = false

[dependencies]
chrono = "*"
clap = { version = "*", features = ["derive"] }
colored = "*"
pdf-extract = "*"
press-btn-continue = "*"
