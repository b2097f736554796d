[package]
name = "authproxy"
version = "0.1.0"
edition = "2021"
publish = false

[dependencies]
bcrypt = "*"
actix-web = "*"
serde = { version = "*", features = ["derive"] }
tokio = { version = "*", features = ["full"] }
tokio-postgres = "*"
dotenv = "*"
