[package]
name = "todo_app"
version = "0.1.0"
edition = "2021"
publish = false

[dependencies]
actix-web = "=4.15.0"
hmac = "=0.12.1"
jwt = "=0.16.0"
mongodb = { version = "=3.9.1", features = ["sync"] }
serde = { version = "=1.0.229", features = ["derive"] }
sha2 = "=0.10.9"
