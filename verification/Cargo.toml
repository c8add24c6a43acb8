[package]
name = "tawny"
version = "0.1.0"
edition = "2021"
publish = false

[dependencies]
time = { version = "0.3", features = ["parsing", "formatting", "macros"] }
web-time = "*"
argon2 = { version = "0.5", features = ["std"] }
serde = { version = "1", features = ["derive"] }
serde_json = "1"
dirs = "*"
