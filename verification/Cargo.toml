[package]
name = "token_effort"
version = "0.1.0"
edition = "2021"
publish = false

[dependencies]
gray_matter = "0.2"
pulldown-cmark = "0.12"
serde = { version = "1", features = ["derive"] }
walkdir = "2"
