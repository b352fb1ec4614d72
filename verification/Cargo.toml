[package]
name = "gitlasso"
version = "0.1.0"
edition = "2021"
publish = false

[dependencies]
anyhow = "1"
clap = { version = "4", features = ["derive"] }
clap_complete = "4"
crossterm = "*"
directories = "*"
dirs = "*"
git2 = { version = "*", default-features = false }
serde = { version = "1", features = ["derive"] }
walkdir = "2"
