[package]
name = "table_store"
version = "0.1.0"
edition = "2021"
publish = false

[dependencies]
rand = "*"
actix-web = "*"
serde = { version = "*", features = ["derive"] }
async-trait = "*"
dotenvy = "*"
env_logger = "*"
diesel = { version = "*", features = ["mysql_backend"] }
diesel-async = { version = "*", features = ["mysql", "bb8"] }
