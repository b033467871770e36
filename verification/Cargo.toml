[package]
name = "core1_etb"
version = "0.1.0"
edition = "2021"
publish = false

[dependencies]
calamine = "*"
zip = "*"
umya-spreadsheet = "*"
reqwest = { version = "*", default-features = false, features = ["blocking", "json", "rustls-tls"] }
serde = { version = "1", features = ["derive"] }
serde_json = "1"
tokio = { version = "1", features = ["rt-multi-thread"] }
aws-config = "1"
aws-sdk-translate = "1"
dotenvy = "*"
