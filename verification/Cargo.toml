[package]
name = "daily-ups"
version = "0.1.0"
edition = "2021"
publish = false

[dependencies]
clap = { version = "4", features = ["string"] }
indicatif = "*"
owo-colors = "4"
thiserror = "2"
time = { version = "0.3", features = ["formatting", "local-offset", "parsing"] }
