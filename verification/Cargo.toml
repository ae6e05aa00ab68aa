[package]
name = "geet"
version = "0.1.0"
edition = "2021"
publish = false

[dependencies]
clap = { version = "*", features = ["derive"] }
color-eyre = "*"
futures = "*"
git2 = { version = "*", default-features = false }
parse-display = "*"
serde = { version = "*", features = ["derive"] }
serde_with = "*"
toml = "*"
