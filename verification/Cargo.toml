[package]
name = "blog_engine"
version = "0.1.0"
edition = "2021"
publish = false

[dependencies]
bcrypt = "=0.19.3"
jsonwebtoken = { version = "=11.1.0", features = ["rust_crypto"] }
serde = "=1.0.229"
serde_json = "=1.0.151"
validator = "=0.16.1"
chrono = "=0.4.45"
