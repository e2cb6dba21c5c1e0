[package]
name = "speak"
version = "0.1.0"
edition = "2021"
publish = false

[dependencies]
dsv = "*"
clap = { version = "*", features = ["derive"] }
