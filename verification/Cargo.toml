[package]
name = "tae"
version = "0.1.0"
edition = "2021"
publish = false

[dependencies]
url = "2"
base64 = "0.22"
serde = { version = "1", features = ["derive"] }
toml = "0.8"
dirs = "5"
structopt = "0.3"
