[package]
name = "hltv"
version = "0.1.0"
edition = "2021"
publish = false

[dependencies]
tl = "*"
chrono = "*"
reqwest = { version = "*", default-features = false }
