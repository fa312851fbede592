[package]
name = "pw"
version = "0.1.0"
edition = "2021"
publish = false

[dependencies]
rand = "0.9"
zxcvbn = "3"
clap = { version = "4", features = ["derive"] }
colored = "3"
arboard = "3"
