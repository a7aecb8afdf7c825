[package]
name = "pueue"
version = "0.1.0"
edition = "2021"
publish = false

[dependencies]
chrono = "0.4"
color-eyre = "0.6"
pueue-lib = "*"
toml = "*"
