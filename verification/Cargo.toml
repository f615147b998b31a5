[package]
name = "invoice_store"
version = "0.1.0"
edition = "2021"
publish = false

[dependencies]
chrono = { version = "*", features = ["serde"] }
csv = "*"
juniper = "*"
juniper_rocket = "*"
rocket = "*"
serde = { version = "*", features = ["derive"] }
