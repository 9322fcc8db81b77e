[package]
name = "localcode"
version = "0.1.0"
edition = "2021"
publish = false

[dependencies]
hf-hub = "=0.3.2"
anyhow = "=1.0.104"
clap = { version = "=4.6.7", features = ["derive"] }
console = "=0.16.6"
dirs = "=6.0.0"
indicatif = "=0.18.6"
inquire = "=0.9.4"
serde = { version = "=1.0.229", features = ["derive"] }
serde_json = "=1.0.151"
