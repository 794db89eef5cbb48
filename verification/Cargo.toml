[package]
name = "gcsdrop"
version = "0.1.0"
edition = "2021"
publish = false

[dependencies]
anyhow = "1"
chrono = "0.4"
clap = { version = "4", features = ["derive"] }
google-cloud-auth = "*"
google-cloud-storage = "*"
mime_guess = "2"
rand = "*"
reqwest = { version = "*", default-features = false, features = ["rustls-tls"] }
serde_json = "1"
tokio = { version = "1", features = ["macros", "rt-multi-thread", "fs"] }
walkdir = "2"
