[package]
name = "mess"
version = "0.1.0"
edition = "2021"
publish = false

[dependencies]
rand = "0.8"
clap = { version = "3.2", features = ["derive"] }
serde = { version = "1", features = ["derive"] }
bincode = "1.3"
