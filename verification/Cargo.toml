[package]
name = "vscode_theme"
version = "0.1.0"
edition = "2021"
publish = false

[dependencies]
directories = "5"
regex-lite = "0.1"
serde = { version = "1", features = ["derive"] }
serde_json = "1"
thiserror = "1"
