[package]
name = "rt"
version = "0.1.0"
edition = "2021"

[dependencies]
rand = "0.8"
image = { version = "0.24", default-features = false, features = ["png"] }
