[package]
name = "dotter"
version = "0.1.0"
edition = "2021"
publish = false

[dependencies]
clap = "2"
failure = "0.1"
reqwest = "0.9"
serde = { version = "1", features = ["derive"] }
serde_json = "1"
symlink = "0.1"
