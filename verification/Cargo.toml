[package]
name = "rsopen"
version = "0.1.0"
edition = "2021"
publish = false

[dependencies]
strsim = "*"
anyhow = "*"
clap = { version = "*", features = ["derive"] }
dirs = "*"
walkdir = "*"
