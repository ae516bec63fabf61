[package]
name = "blockchain_api"
version = "0.1.0"
edition = "2021"
publish = false

[dependencies]
actix-web = { version = "4", default-features = false, features = ["macros"] }
crypto-hash = "0.3"
derive_more = "0.99"
lazy_static = "1"
serde = { version = "1", features = ["derive"] }
