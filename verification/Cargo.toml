[package]
name = "notion2html"
version = "0.1.0"
edition = "2021"
publish = false

[dependencies]
log = "0.4"
owo-colors = "4"
reqwest = { version = "0.12", features = ["blocking", "json"] }
serde = { version = "1", features = ["derive"] }
simplelog = "0.12"
