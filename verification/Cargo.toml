[package]
name = "cyber_path"
version = "0.1.0"
edition = "2021"
publish = false

[dependencies]
rand = "*"
anyhow = "1"
clap = { version = "4", features = ["derive"] }
crossterm = "0.29"
kira = "*"
