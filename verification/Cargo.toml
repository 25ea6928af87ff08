[package]
name = "gitxel_art"
version = "0.2.0"
edition = "2021"
publish = false

[dependencies]
anyhow = "1"
chrono = "0.4"
clap = { version = "4", features = ["derive"] }
colored = "2"
image = { version = "0.25", default-features = false, features = ["png", "jpeg"] }
indicatif = "0.17"
inquire = "0.7"
