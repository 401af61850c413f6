[package]
name = "safeinstall"
version = "0.1.0"
edition = "2021"
publish = false

[dependencies]
regex = "1"
url = "2"
sha2 = "0.10"
serde = { version = "1", features = ["derive"] }
serde_json = "1"
reqwest = { version = "0.12", default-features = false, features = ["rustls-tls", "json"] }
tokio = { version = "1", features = ["macros", "rt-multi-thread", "process", "signal", "io-util"] }
clap = { version = "4", features = ["derive"] }
anyhow = "1"
tempfile = "3"
