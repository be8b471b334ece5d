[package]
name = "trubadur"
version = "0.1.0"
edition = "2021"
publish = false

[dependencies]
pnet = "=0.35.0"
regex = "=1.13.1"
toml = "=1.1.8"
influent = "=0.5.3"
psutil = "=1.7.0"
futures = "=0.1.31"
tokio = "=0.1.22"
