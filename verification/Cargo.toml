[package]
name = "sudodb"
version = "0.1.0"
edition = "2021"
publish = false

[dependencies]
chrono = { version = "=0.4.45", default-features = false, features = ["std"] }
serde_json = "=1.0.154"
futures = { version = "0.3", default-features = false, features = ["executor"] }
