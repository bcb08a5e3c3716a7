[package]
name = "openshell_fractal"
version = "0.1.0"
edition = "2021"
publish = false

[dependencies]
hex = "0.4"
regex-lite = "0.1"
serde_json = "1"
serde_yaml = "0.9"
sha2 = "0.10"
url = "2"
clap = { version = "4", features = ["derive"] }
miette = "7"
serde = { version = "1", features = ["derive"] }
thiserror = "2"
