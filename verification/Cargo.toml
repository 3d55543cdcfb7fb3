[package]
name = "diskio"
version = "0.1.0"
edition = "2021"
publish = false

[dependencies]
rand = "0.8"
tokio = { version = "1", features = ["full"] }
async-channel = "2"
futures = "0.3"
clap = { version = "4", features = ["derive"] }
