[package]
name = "notes_backend"
version = "0.1.0"
edition = "2021"
publish = false

[dependencies]
actix-web = "=3.3.3"
actix-web-httpauth = "=0.5.1"
argon2 = { version = "=0.4.1", features = ["std"] }
chrono = "=0.4.45"
diesel = { version = "=1.4.8", features = ["postgres", "r2d2"] }
dotenv = "=0.15.0"
jsonwebtoken = "=8.3.0"
openssl = "=0.10.81"
rand = "=0.8.8"
serde = { version = "=1.0.229", features = ["derive"] }
serde_json = { version = "=1.0.154", features = ["preserve_order"] }
thiserror = "=1.0.69"
uuid = { version = "=1.29.0", features = ["v4"] }
