[package]
name = "sentinel_replace"
version = "0.1.0"
edition = "2021"
publish = false

[dependencies]
aho-corasick = "1"
anyhow = "1"
clap = { version = "3", features = ["derive"] }
glob = "0.3"
log = "0.4"
rayon = "1"
simple_logger = "4"
