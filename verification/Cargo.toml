[package]
name = "rcms"
version = "0.1.0"
edition = "2021"
publish = false

[dependencies]
argon2 = "0.2"
rand_core = { version = "0.6", features = ["getrandom"] }
uuid = { version = "1", features = ["v4"] }
chrono = "0.4"
jsonwebtoken = "8"
handlebars = "4"
serde = { version = "1", features = ["derive"] }
serde_json = "1"
notify = "4"
