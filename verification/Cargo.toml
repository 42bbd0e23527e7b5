[package]
name = "sierpinski"
version = "0.1.0"
edition = "2021"
publish = false

[dependencies]
rand = "0.8"
image = "0.25"
clap = { version = "4", features = ["derive"] }
env_logger = "0.11"
log = "0.4"
indicatif = "0.17"
wallpaper = "3"
