[package]
name = "spelling_bee"
version = "0.1.0"
edition = "2021"
publish = false

[dependencies]
anyhow = "1"
base16ct = { version = "0.2", features = ["alloc"] }
chrono = { version = "0.4", features = ["serde"] }
couch_rs = "*"
dotenv = "0.15"
lazy_static = "1"
rand = "0.8"
rocket = "0.5"
rocket_cors = "*"
rsntp = "*"
serde = { version = "1", features = ["derive"] }
serde_json = "1"
sha3 = "0.10"
thiserror = "1"
