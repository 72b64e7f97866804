[package]
name = "bops"
version = "0.1.0"
edition = "2021"
publish = false

[dependencies]
rand = "=0.8.8"
regex = "=1.13.1"
serde = { version = "=1.0.229", features = ["derive"] }
serde_json = "=1.0.154"
sqlparser = "=0.36.1"
time = { version = "0.3", features = ["formatting", "parsing"] }
urlencoding = "2"
