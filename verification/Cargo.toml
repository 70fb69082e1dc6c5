[package]
name = "cargo_git_release"
version = "0.1.0"
edition = "2021"
publish = false

[dependencies]
toml = "=1.1.6"
serde_json = { version = "=1.0.151", features = ["float_roundtrip"] }
clap = { version = "=4.6.7", features = ["derive"] }
walkdir = "=2.5.0"
