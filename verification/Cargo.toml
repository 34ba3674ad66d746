[package]
name = "rust_book_server_example"
version = "0.1.0"
edition = "2021"
publish = false

[dependencies]
argon2 = "0.5"
jsonwebtoken = "9"
rand = "0.8"
rand_core = { version = "0.6", features = ["getrandom"] }
serde_json = "1"

[dev-dependencies]
regex = "1"
