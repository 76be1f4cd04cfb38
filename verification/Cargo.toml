[package]
name = "thalora"
version = "0.1.0"
edition = "2021"
publish = false

[dependencies]
actix-cors = "*"
actix-session = { version = "*", features = ["cookie-session"] }
actix-web = "*"
base64 = "*"
bb8 = "*"
bb8-tiberius = "*"
chrono = "*"
dotenv = "*"
env_logger = "*"
futures-util = "*"
log = "*"
rand = "*"
serde = { version = "*", features = ["derive"] }
serde_json = "*"
tiberius = "*"
trust-dns-resolver = "*"
url = "*"
uuid = { version = "*", features = ["v4"] }
