[package]
name = "plexisort"
version = "0.1.0"
edition = "2021"
publish = false

[dependencies]
chrono = "0.4"
clap = "4"
kamadak-exif = "0.5"
log = "0.4"
mime = "0.3"
mime_guess = "2"
serde = { version = "1", features = ["derive"] }
serde_json = "1"
simplelog = "0.12"
toml = "0.8"
walkdir = "2"
