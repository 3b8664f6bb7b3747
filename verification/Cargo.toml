[package]
name = "oxidebooks_db"
version = "0.1.0"
edition = "2021"
publish = false

[dependencies]
argon2 = "0.5"
base64 = "0.22"
rand = "0.8"
rust_decimal = "1"
serde = { version = "1", features = ["derive"] }
serde_json = "1"
sqlx = { version = "0.8", default-features = false, features = ["postgres", "runtime-tokio", "uuid", "time", "rust_decimal"] }
time = { version = "0.3", features = ["macros", "parsing", "formatting"] }
uuid = { version = "1", features = ["v4"] }
