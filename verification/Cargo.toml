[package]
name = "revolt_core"
version = "0.1.0"
edition = "2021"
publish = false

[dependencies]
ulid = "1"
indexmap = "2"
serde = { version = "1", features = ["derive"] }
serde_json = "1"
async-std = { version = "1", features = ["attributes"] }
futures = "0.3"
log = "0.4"
once_cell = "1"
mongodb = { version = "*", features = ["sync"] }
dotenv = "0.15"
