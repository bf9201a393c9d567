[package]
name = "herdr_file_viewer"
version = "1.16.0"
edition = "2021"
publish = false

[dependencies]
serde = { version = "1", features = ["derive"] }
serde_json = "1"
