[package]
name = "mcenroe"
version = "0.1.0"
edition = "2021"
publish = false

[dependencies]
colorize = "*"
rand = "*"
clap = { version = "*", features = ["derive"] }
serde = { version = "*", features = ["derive"] }
serde_yaml = "*"
rayon = "*"
socket2 = "*"
