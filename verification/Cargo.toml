[package]
name = "filecrypt"
version = "0.1.0"
edition = "2021"
publish = false

[dependencies]
anyhow = "1"
clap = { version = "4", features = ["derive"] }
rand = "0.8"
rsa = "0.9"
zip = { version = "0.6", default-features = false, features = ["deflate"] }
