[package]
name = "cedar-agent"
version = "0.1.0"
edition = "2021"
publish = false

[dependencies]
rocket = { version = "0.5", features = ["json"] }
rocket_okapi = { version = "0.8", features = ["swagger", "rapidoc"] }
rocket_cors = "0.6"
serde = { version = "1", features = ["derive"] }
serde_json = "1"
cedar-policy = "4"
sqlx = { version = "0.8", default-features = false, features = ["runtime-tokio", "postgres", "mysql"] }
tokio = { version = "1", features = ["full"] }
async-trait = "0.1"
async-lock = "3"
log = "0.4"
