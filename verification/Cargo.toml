[package]
name = "langgame"
version = "0.1.0"
edition = "2021"
publish = false

[dependencies]
actix-web = "4.12.1"
rand = "0.9.2"
serde = { version = "1.0.228", features = ["derive"] }
walkdir = "2.5.0"
