[package]
name = "parser"
version = "0.1.0"
edition = "2021"
publish = false

[dependencies]
csv = "=1.4.0"
iced = "0.14"
nom = "=8.0.0"
serde = { version = "=1.0.229", features = ["derive"] }
serde_json = "=1.0.154"
