[package]
name = "germ"
version = "0.1.0"
edition = "2021"
publish = false

[dependencies]
anyhow = "1"
atty = "0.2"
serde = { version = "1", features = ["derive"] }
serde_json = "1"
shellwords = "1"
structopt = "0.3"
strum = { version = "0.20", features = ["derive"] }
