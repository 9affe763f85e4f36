[package]
name = "bigback"
version = "0.1.0"
edition = "2021"
publish = false

[dependencies]
actix-cors = "0.7"
actix-web = "4"
bson = "2"
env_logger = "0.11"
futures = "0.3"
mongodb = "2"
serde = { version = "1", features = ["derive"] }
