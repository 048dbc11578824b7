[package]
name = "tinct"
version = "0.1.0"
edition = "2021"
publish = false

[dependencies]
material-colors = "=0.4.2"
image = "=0.25.10"
serde = { version = "=1.0.229", features = ["derive"] }
serde_json = "=1.0.154"
toml = "=1.1.8"
anyhow = "=1.0.104"
clap = { version = "=4.6.7", features = ["derive"] }
