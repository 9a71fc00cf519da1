[package]
name = "espanso_gui"
version = "0.1.0"
edition = "2021"
publish = false

[dependencies]
serde = { version = "1", features = ["derive"] }
serde_json = "1"
serde_yaml = "0.9"
walkdir = "2"
dirs = "5"
home = "0.5"
webbrowser = "1"

[dev-dependencies]
regex = "1"
