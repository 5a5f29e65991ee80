[package]
name = "letterman"
version = "0.1.0"
edition = "2021"
publish = false

[dependencies]
base64 = "0.22"
markdown = "1.0.0-alpha.16"
serde_yaml = "0.9"
serde = { version = "1", features = ["derive"] }
serde_json = "1"
chrono = "0.4"
thiserror = "1"
log = "0.4"
async-trait = "0.1"
futures = "0.3"
anyhow = "1"
dotenv = "0.15"
env_logger = "0.10"
snowflake = "1"
bson = { version = "2", features = ["chrono-0_4"] }
mongodb = "2"
reqwest = { version = "0.12", default-features = false, features = ["json", "rustls-tls"] }
actix-web = "4"
actix-cors = "0.7"
r2d2 = "0.8"
diesel = { version = "2", features = ["mysql", "r2d2"] }
