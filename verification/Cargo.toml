[package]
name = "pxscan"
version = "0.1.0"
edition = "2021"
publish = false

[dependencies]
rand = "0.8"
pnet = "*"
serde = { version = "*", features = ["derive"] }
