[package]
name = "cl"
version = "0.1.0"
edition = "2021"
publish = false

[dependencies]
fuzzy-matcher = "=0.3.7"
strfmt = "=0.2.6"
regex = "=1.13.1"
unicode-width = "=0.1.14"
clap = { version = "=4.6.7", features = ["derive"] }
serde = { version = "=1.0.229", features = ["derive"] }
toml = "=0.8.23"
dirs = "=5.0.1"
anyhow = "=1.0.104"
owo-colors = "=3.5.0"
crossterm = "0.25"
tui = { version = "0.19", default-features = false, features = ["crossterm"] }
