[package]
name = "ovft-core"
version = "0.1.0"
edition = "2021"
publish = false

[dependencies]
regex = "1"
glob = "0.3"
walkdir = "2"
serde = { version = "1", features = ["derive"] }
serde_json = "1"
toml = "0.8"
askama = "0.12"
pulldown-cmark = "0.10"
clap = "4"
anyhow = "1"
env_logger = "0.11"
log = "0.4"
thiserror = "1"
