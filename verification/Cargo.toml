[package]
name = "hivecad"
version = "0.1.0"
edition = "2021"
publish = false

[dependencies]
git2 = "*"
dirs = "*"
serde = { version = "1", features = ["derive"] }
serde_json = "1"
