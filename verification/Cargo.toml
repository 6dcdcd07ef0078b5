[package]
name = "task_tracker"
version = "0.1.0"
edition = "2021"
publish = false

[dependencies]
actix-web = "*"
actix-web-httpauth = "*"
argonautica = "=0.2.0"
chrono = "=0.4.45"
chrono-tz = "=0.10.4"
dotenv = "=0.15.0"
env_logger = "*"
hmac = "=0.13.0"
lettre = "=0.11.23"
log = "=0.4.34"
mime = "=0.3.17"
serde = { version = "*", features = ["derive"] }
sha2 = "=0.11.0"
tokio = { version = "*", features = ["rt-multi-thread", "macros", "time"] }
validator = "=0.21.0"
