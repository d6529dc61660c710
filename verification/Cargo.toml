[package]
name = "auth_core"
version = "0.1.0"
edition = "2021"
publish = false

[dependencies]
base64 = "=0.23.1"
jsonwebtoken = { version = "=11.1.0", features = ["rust_crypto"] }
sha2 = "=0.11.0"
serde = { version = "=1.0.229", features = ["derive"] }
actix-web = "=4.15.0"
mongodb = "=3.9.1"
futures = "=0.3.34"
dotenv = "=0.15.0"
