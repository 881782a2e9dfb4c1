[package]
name = "rlg"
version = "0.1.0"
edition = "2021"
publish = false

[dependencies]
chrono = "0.4"
clap = { version = "4", features = ["cargo"] }
dirs = "5"
rev_lines = "0.3"
serde = { version = "1", features = ["derive"] }
toml = "0.8"
