[package]
name = "authcore"
version = "0.1.0"
edition = "2021"
publish = false

[dependencies]
base64 = "0.21"
ring = "0.16"
rand = "0.8"
hex = "0.4"
data-encoding = "2"
chrono = "0.4"
serde = { version = "1", features = ["derive"] }
serde_json = "1"
uuid = { version = "1", features = ["v4", "serde"] }
axum = "0.6"
axum-auth = "0.4"
axum-sessions = "0.5"
async-session = "3"
async-trait = "0.1"
tokio = { version = "1", features = ["macros", "rt-multi-thread"] }
tower = "0.4"
tower-http = { version = "0.4", features = ["trace", "cors", "request-id", "util"] }
http = "0.2"
validator = { version = "0.16", features = ["derive"] }
dotenvy = "0.15"
log = "0.4"
diesel = { version = "2", features = ["postgres", "chrono", "uuid"] }
