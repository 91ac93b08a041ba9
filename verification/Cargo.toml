[package]
name = "querydesk"
version = "0.1.0"
edition = "2021"
publish = false

[dependencies]
aes-gcm = "0.10"
rand = "0.8"
csv = "1"
htmlescape = "0.3"
serde = { version = "1", features = ["derive"] }
serde_json = "1"
sqlx = { version = "0.7", default-features = false, features = ["postgres", "runtime-tokio", "json"] }
tokio = { version = "1", features = ["rt-multi-thread", "macros"] }
