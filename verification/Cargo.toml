[package]
name = "zoxi"
version = "0.1.0"
edition = "2021"
publish = false

[dependencies]
anyhow = "1"
ariadne = "*"
clap = { version = "4", features = ["derive"] }
flate2 = "1"
regex = "1"
semver = "1"
serde = { version = "1", features = ["derive"] }
serde_json = "1"
tar = "*"
toml = "*"
ureq = { version = "*", default-features = false }
walkdir = "2"
