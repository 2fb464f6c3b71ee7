[package]
name = "prmap"
version = "0.1.0"
edition = "2021"
publish = false

[dependencies]
anyhow = "*"
colorgrad = "0.6"
git2 = "*"
maud = "*"
serde = { version = "*", features = ["derive"] }
serde_json = "*"
walkdir = "*"
