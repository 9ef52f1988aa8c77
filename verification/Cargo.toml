[package]
name = "cargotecture"
version = "0.1.0"
edition = "2021"
publish = false

[dependencies]
anyhow = "*"
clap = { version = "*", features = ["derive"] }
dockerfile-parser = "*"
escape_string = "*"
serde = { version = "*", features = ["derive"] }
serde_json = "*"
serde_yaml = "*"
