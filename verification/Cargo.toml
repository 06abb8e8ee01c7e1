[package]
name = "tileworld"
version = "0.1.0"
edition = "2021"
publish = false

[dependencies]
futures = "0.3"
noise = { version = "0.7", default-features = false }
rand = "0.8"
serde = { version = "1", features = ["derive"] }
structopt = "0.3"
