[package]
name = "elo_ledger"
version = "0.1.0"
edition = "2021"
publish = false

[dependencies]
hdk = { version = "=0.0.132", features = ["encoding"] }
skill-rating = "=0.0.1"
rmp = "=0.8.10"
serde = { version = "1", features = ["derive"] }
