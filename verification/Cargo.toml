[package]
name = "epub_meta"
version = "0.1.0"
edition = "2021"
publish = false

[dependencies]
roxmltree = "*"
zip = "*"
serde = { version = "*", features = ["derive"] }
