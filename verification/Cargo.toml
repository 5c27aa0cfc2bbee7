[package]
name = "netherite_auth"
version = "0.1.0"
edition = "2021"
publish = false

[dependencies]
jsonwebtoken = { version = "=11.1.0", features = ["rust_crypto"] }
base64 = "=0.22.1"
bcrypt = "=0.19.3"
rand = "=0.10.3"
