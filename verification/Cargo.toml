[package]
name = "site_compare"
version = "0.1.0"
edition = "2021"
publish = false

[dependencies]
anyhow = "*"
auk = "*"
clap = { version = "*", features = ["derive"] }
env_logger = "*"
log = "*"
opener = "*"
pulldown-cmark = "*"
similar = "*"
slug = "*"
walkdir = "*"
